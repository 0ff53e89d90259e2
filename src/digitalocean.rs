//! Chains that manage droplets, their DNS records and ssh keys through
//! the `doctl` command line tool.
use vstd::prelude::*;
use vstd::string::*;
use crate::chain::{ChainModel, CommandChain, ItemModel, Mapping, MappingModel};

verus! {

/// How many `.` characters `s` holds.
pub open spec fn dot_count(s: Seq<char>) -> nat
    decreases s.len(),
{
    if s.len() == 0 {
        0
    } else {
        dot_count(s.drop_last()) + if s.last() == '.' {
            1nat
        } else {
            0nat
        }
    }
}

/// The index of the first `.` in `s`, or its length where it has none.
pub open spec fn first_dot(s: Seq<char>) -> nat
    decreases s.len(),
{
    if s.len() == 0 {
        0
    } else if first_dot(s.drop_last()) < s.len() - 1 {
        first_dot(s.drop_last())
    } else if s.last() == '.' {
        (s.len() - 1) as nat
    } else {
        s.len()
    }
}

/// The DNS record name for a droplet named `name`: the part before the
/// first `.` where the name has three or more dot-separated parts, and `@`
/// (the domain itself) otherwise.
pub open spec fn subdomain_of(name: Seq<char>) -> Seq<char> {
    if dot_count(name) >= 2 {
        name.subrange(0, first_dot(name) as int)
    } else {
        "@"@
    }
}

/// The DNS record name for a droplet named `name`.
pub fn get_subdomain_from_name(name: &str) -> (r: String)
    ensures
        r@ == subdomain_of(name@),
{
    let n = name.unicode_len();
    let mut count: usize = 0;
    let mut first: usize = 0;
    let mut i: usize = 0;
    while i < n
        invariant
            n == name@.len(),
            i <= n,
            count as nat == dot_count(name@.subrange(0, i as int)),
            first as nat == first_dot(name@.subrange(0, i as int)),
            count <= i,
            first <= i,
        decreases n - i,
    {
        let ghost pre = name@.subrange(0, i as int);
        let ghost cur = name@.subrange(0, i + 1);
        assert(cur.drop_last() =~= pre);
        let c = name.get_char(i);
        if c == '.' {
            count = count + 1;
        }
        if first == i && c != '.' {
            first = i + 1;
        }
        i = i + 1;
    }
    assert(name@.subrange(0, n as int) =~= name@);
    if count >= 2 {
        name.substring_char(0, first).to_owned()
    } else {
        "@".to_owned()
    }
}

/// `o`'s value, or `default` where it has none.
pub open spec fn or_default(o: Option<Seq<char>>, default: Seq<char>) -> Seq<char> {
    match o {
        Some(v) => v,
        None => default,
    }
}

pub open spec fn opt_str_view(o: Option<&str>) -> Option<Seq<char>> {
    match o {
        Some(v) => Some(v@),
        None => None,
    }
}

fn str_or<'a>(o: Option<&'a str>, default: &'a str) -> (r: &'a str)
    ensures
        r@ == or_default(opt_str_view(o), default@),
{
    match o {
        Some(v) => v,
        None => default,
    }
}

pub open spec fn ssh_key_list_line() -> Seq<char> {
    "doctl compute ssh-key list --no-header --format=ID"@
}

pub open spec fn droplet_list_line() -> Seq<char> {
    "doctl compute droplet list --format Name,PublicIPv4,PublicIPv6,Status"@
}

/// The template of the command that creates droplet `name`; `%ssh_keys%`
/// stands for the ids of the account's ssh keys.
pub open spec fn droplet_create_template(name: Seq<char>, region: Seq<char>, size: Seq<char>) -> Seq<char> {
    "doctl compute droplet create "@ + name + " --image=ubuntu-16-04-x64 --region="@ + region
        + " --size="@ + size + " --ssh-keys=\"%ssh_keys%\" --wait"@
}

/// The template of the command that creates the A record `subdomain` of
/// `domain`; `%ip_address%` stands for the droplet's address.
pub open spec fn record_create_template(domain: Seq<char>, subdomain: Seq<char>) -> Seq<char> {
    "doctl compute domain records create "@ + domain
        + " --record-type=A --record-data=%ip_address% --record-name="@ + subdomain
}

/// Creates droplet `name` with every ssh key of the account, in `region`
/// (default `sfo1`) with `size` (default `512mb`), then points an A record
/// of `domain` (default `one.haus`) at it. The ssh keys are the lines of
/// the key listing, joined by commas; the address is the second column of
/// the droplet listing's first line that starts with `name`.
pub fn create_droplet_by_name(
    name: &str,
    region: Option<&str>,
    size: Option<&str>,
    domain: Option<&str>,
) -> (r: CommandChain)
    ensures
        r@ == ChainModel::fresh(
            seq![
                ItemModel::FatalCommand(ssh_key_list_line()),
                ItemModel::ResultMappedCommand(
                    MappingModel::Lines { token: "%ssh_keys%"@, separator: ","@ },
                    droplet_create_template(
                        name@,
                        or_default(opt_str_view(region), "sfo1"@),
                        or_default(opt_str_view(size), "512mb"@),
                    ),
                    true,
                ),
                ItemModel::FatalCommand(droplet_list_line()),
                ItemModel::ResultMappedCommand(
                    MappingModel::KeyedValue { token: "%ip_address%"@, key: name@ },
                    record_create_template(
                        or_default(opt_str_view(domain), "one.haus"@),
                        subdomain_of(name@),
                    ),
                    true,
                ),
            ],
        ),
{
    let subdomain = get_subdomain_from_name(name);
    let mut create = String::from_str("doctl compute droplet create ");
    create.append(name);
    create.append(" --image=ubuntu-16-04-x64 --region=");
    create.append(str_or(region, "sfo1"));
    create.append(" --size=");
    create.append(str_or(size, "512mb"));
    create.append(" --ssh-keys=\"%ssh_keys%\" --wait");
    let mut record = String::from_str("doctl compute domain records create ");
    record.append(str_or(domain, "one.haus"));
    record.append(" --record-type=A --record-data=%ip_address% --record-name=");
    record.append(subdomain.as_str());
    let keys = Mapping::Lines { token: "%ssh_keys%".to_owned(), separator: ",".to_owned() };
    let address = Mapping::KeyedValue { token: "%ip_address%".to_owned(), key: name.to_owned() };
    let c = CommandChain::new()
        .cmd("doctl compute ssh-key list --no-header --format=ID")
        .result_mapped_cmd(keys, create.as_str())
        .cmd("doctl compute droplet list --format Name,PublicIPv4,PublicIPv6,Status")
        .result_mapped_cmd(address, record.as_str());
    assert(c@.items =~= seq![
        ItemModel::FatalCommand(ssh_key_list_line()),
        ItemModel::ResultMappedCommand(
            MappingModel::Lines { token: "%ssh_keys%"@, separator: ","@ },
            create@,
            true,
        ),
        ItemModel::FatalCommand(droplet_list_line()),
        ItemModel::ResultMappedCommand(
            MappingModel::KeyedValue { token: "%ip_address%"@, key: name@ },
            record@,
            true,
        ),
    ]);
    c
}

pub open spec fn droplet_delete_line(name: Seq<char>) -> Seq<char> {
    "doctl compute droplet delete -f "@ + name
}

pub open spec fn record_list_line(domain: Seq<char>) -> Seq<char> {
    "doctl compute domain records list "@ + domain + " --format Name,ID --no-header"@
}

/// The template of the command that deletes a record of `domain`;
/// `%record_id%` stands for the record's id.
pub open spec fn record_delete_template(domain: Seq<char>) -> Seq<char> {
    "doctl compute domain records delete -f "@ + domain + " %record_id%"@
}

/// Deletes droplet `name`, going on where that fails, then deletes its DNS
/// record from `domain` (default `one.haus`): the record whose line of the
/// record listing is the first to start with the droplet's subdomain, the
/// id being that line's second column.
pub fn destroy_droplet_by_name(name: &str, domain: Option<&str>) -> (r: CommandChain)
    ensures
        r@ == ChainModel::fresh(
            seq![
                ItemModel::NonFatalCommand(droplet_delete_line(name@)),
                ItemModel::FatalCommand(
                    record_list_line(or_default(opt_str_view(domain), "one.haus"@)),
                ),
                ItemModel::ResultMappedCommand(
                    MappingModel::KeyedValue { token: "%record_id%"@, key: subdomain_of(name@) },
                    record_delete_template(or_default(opt_str_view(domain), "one.haus"@)),
                    true,
                ),
            ],
        ),
{
    let subdomain = get_subdomain_from_name(name);
    let domain_name = str_or(domain, "one.haus");
    let mut delete_droplet = String::from_str("doctl compute droplet delete -f ");
    delete_droplet.append(name);
    let mut list_records = String::from_str("doctl compute domain records list ");
    list_records.append(domain_name);
    list_records.append(" --format Name,ID --no-header");
    let mut delete_record = String::from_str("doctl compute domain records delete -f ");
    delete_record.append(domain_name);
    delete_record.append(" %record_id%");
    let record_id = Mapping::KeyedValue { token: "%record_id%".to_owned(), key: subdomain };
    let c = CommandChain::new()
        .cmd_nonfatal(delete_droplet.as_str())
        .cmd(list_records.as_str())
        .result_mapped_cmd(record_id, delete_record.as_str());
    assert(c@.items =~= seq![
        ItemModel::NonFatalCommand(delete_droplet@),
        ItemModel::FatalCommand(list_records@),
        ItemModel::ResultMappedCommand(
            MappingModel::KeyedValue { token: "%record_id%"@, key: subdomain@ },
            delete_record@,
            true,
        ),
    ]);
    c
}

/// The command line that adds the local public key `~/.ssh/id_rsa.pub` to
/// the account under `name`.
pub open spec fn ssh_key_create_line(name: Seq<char>) -> Seq<char> {
    "doctl compute ssh-key create "@ + name + " --public-key=\"$(cat ~/.ssh/id_rsa.pub)\""@
}

/// Adds the local public key `~/.ssh/id_rsa.pub` to the account under
/// `name`, to be installed on droplets created afterwards.
pub fn create_sshkey(name: &str) -> (r: CommandChain)
    ensures
        r@ == ChainModel::fresh(seq![ItemModel::FatalCommand(ssh_key_create_line(name@))]),
{
    let mut line = String::from_str("doctl compute ssh-key create ");
    line.append(name);
    line.append(" --public-key=\"$(cat ~/.ssh/id_rsa.pub)\"");
    let c = CommandChain::new().cmd(line.as_str());
    assert(c@.items =~= seq![ItemModel::FatalCommand(ssh_key_create_line(name@))]);
    c
}

} // verus!
