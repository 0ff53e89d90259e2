//! Chains that set up software on a remote host over `ssh`.
use vstd::prelude::*;
use vstd::string::*;
use crate::chain::{ChainModel, CommandChain, ItemModel};
use crate::text::{replace_all, replace_text};

verus! {

/// The local command line that runs `remote` on `host` as root over `ssh`.
pub open spec fn ssh_line(host: Seq<char>, remote: Seq<char>) -> Seq<char> {
    "ssh root@"@ + host + " '"@ + remote + "'"@
}

/// Fatal steps that run each of `remotes` on `host`, in order.
pub open spec fn ssh_items(host: Seq<char>, remotes: Seq<Seq<char>>) -> Seq<ItemModel> {
    remotes.map_values(|c: Seq<char>| ItemModel::FatalCommand(ssh_line(host, c)))
}

/// The local command line that runs `remote` on `host` as root over `ssh`.
pub fn ssh_command(host: &str, remote: &str) -> (r: String)
    ensures
        r@ == ssh_line(host@, remote@),
{
    let mut s = String::from_str("ssh root@");
    s.append(host);
    s.append(" '");
    s.append(remote);
    s.append("'");
    s
}

/// Appends a fatal step that runs `remote` on `host`.
fn remote_cmd(chain: CommandChain, host: &str, remote: &str) -> (r: CommandChain)
    ensures
        r@ == chain@.pushed(ItemModel::FatalCommand(ssh_line(host@, remote@))),
{
    let line = ssh_command(host, remote);
    chain.cmd(line.as_str())
}

pub open spec fn nginx_install_remote() -> Seq<char> {
    "apt-get update && apt-get install -y nginx"@
}

/// Installs nginx on `host`.
pub fn install_nginx(host: &str) -> (r: CommandChain)
    ensures
        r@ == ChainModel::fresh(ssh_items(host@, seq![nginx_install_remote()])),
{
    let c = remote_cmd(CommandChain::new(), host, "apt-get update && apt-get install -y nginx");
    assert(c@.items =~= ssh_items(host@, seq![nginx_install_remote()]));
    c
}

/// The nginx site configuration for `host` before its placeholders are
/// filled: `{1}` stands for the server name, `{2}` for the local port that
/// requests are passed to.
pub const NGINX_HOST_TEMPLATE: &'static str = "
server {
    listen 80;

    server_name {1};

    set_real_ip_from 127.0.0.1;
    set_real_ip_from 192.168.2.1;
    real_ip_header X-Forwarded-For;

    location / {
        proxy_pass http://localhost:{2};
        proxy_http_version 1.1;
        proxy_set_header X-Real-IP $remote_addr;
        proxy_set_header X-Forwarded-For $proxy_add_x_forwarded_for;
        proxy_set_header Upgrade $http_upgrade;
        proxy_set_header Connection 'upgrade';
        proxy_set_header Host $host;
        proxy_cache_bypass $http_upgrade;
    }
}";

/// The nginx site configuration that serves `host` from local `port`.
pub fn nginx_host_config(host: &str, port: &str) -> (r: String)
    ensures
        r@ == replace_all(replace_all(NGINX_HOST_TEMPLATE@, "{1}"@, host@), "{2}"@, port@),
{
    proof {
        reveal_strlit("{1}");
        reveal_strlit("{2}");
    }
    let named = replace_text(NGINX_HOST_TEMPLATE, "{1}", host);
    replace_text(named.as_str(), "{2}", port)
}

/// Where the site configuration for `host` is written locally before it is
/// copied over.
pub open spec fn host_file_path(host: Seq<char>) -> Seq<char> {
    "/tmp/"@ + host + ".conf"@
}

/// Where the site configuration for `host` is written locally.
pub fn nginx_host_file(host: &str) -> (r: String)
    ensures
        r@ == host_file_path(host@),
{
    let mut s = String::from_str("/tmp/");
    s.append(host);
    s.append(".conf");
    s
}

/// The command line that copies the site configuration for `host` into the
/// host's nginx configuration directory.
pub open spec fn host_file_copy_line(host: Seq<char>) -> Seq<char> {
    "scp "@ + host_file_path(host) + " root@"@ + host + ":/etc/nginx/conf.d/"@
}

/// Copies the site configuration for `host`, already written locally at
/// [`nginx_host_file`], to the host. The port is that of
/// [`nginx_host_config`], which the caller writes to that file first.
pub fn add_nginx_host(host: &str, port: &str) -> (r: CommandChain)
    ensures
        r@ == ChainModel::fresh(seq![ItemModel::FatalCommand(host_file_copy_line(host@))]),
{
    let mut s = String::from_str("scp ");
    let path = nginx_host_file(host);
    s.append(path.as_str());
    s.append(" root@");
    s.append(host);
    s.append(":/etc/nginx/conf.d/");
    let c = CommandChain::new().cmd(s.as_str());
    assert(c@.items =~= seq![ItemModel::FatalCommand(host_file_copy_line(host@))]);
    c
}

pub open spec fn certbot_install_remote() -> Seq<char> {
    "add-apt-repository ppa:certbot/certbot && apt-get update && apt-get install -y python-certbot-nginx"@
}

/// Installs certbot for nginx on `host`.
pub fn install_letsencrypt_cert(host: &str) -> (r: CommandChain)
    ensures
        r@ == ChainModel::fresh(ssh_items(host@, seq![certbot_install_remote()])),
{
    let c = remote_cmd(
        CommandChain::new(),
        host,
        "add-apt-repository ppa:certbot/certbot && apt-get update && apt-get install -y python-certbot-nginx",
    );
    assert(c@.items =~= ssh_items(host@, seq![certbot_install_remote()]));
    c
}

/// The command an operator runs, interactively, to have a certificate
/// issued for `host` once certbot is installed.
pub fn certbot_run_command(host: &str) -> (r: String)
    ensures
        r@ == ssh_line(host@, "certbot --nginx -d "@ + host@),
{
    let mut remote = String::from_str("certbot --nginx -d ");
    remote.append(host);
    ssh_command(host, remote.as_str())
}

pub open spec fn rust_install_remote() -> Seq<char> {
    "curl https://sh.rustup.rs -sSf | sh -s -- -y"@
}

/// Installs rust on `host` with rustup.
pub fn install_rust(host: &str) -> (r: CommandChain)
    ensures
        r@ == ChainModel::fresh(ssh_items(host@, seq![rust_install_remote()])),
{
    let c = remote_cmd(CommandChain::new(), host, "curl https://sh.rustup.rs -sSf | sh -s -- -y");
    assert(c@.items =~= ssh_items(host@, seq![rust_install_remote()]));
    c
}

pub open spec fn python_install_remote() -> Seq<char> {
    "apt-get update && apt-get install -y python"@
}

/// Installs python on `host`.
pub fn install_python(host: &str) -> (r: CommandChain)
    ensures
        r@ == ChainModel::fresh(ssh_items(host@, seq![python_install_remote()])),
{
    let c = remote_cmd(CommandChain::new(), host, "apt-get update && apt-get install -y python");
    assert(c@.items =~= ssh_items(host@, seq![python_install_remote()]));
    c
}

pub open spec fn jekyll_remotes() -> Seq<Seq<char>> {
    seq![
        "apt-get update && apt-get install -y rubygems build-essential ruby-dev"@,
        "gem install jekyll bundler"@,
    ]
}

/// Installs ruby and then jekyll on `host`.
pub fn install_jekyll(host: &str) -> (r: CommandChain)
    ensures
        r@ == ChainModel::fresh(ssh_items(host@, jekyll_remotes())),
{
    let c = CommandChain::new();
    let c = remote_cmd(c, host, "apt-get update && apt-get install -y rubygems build-essential ruby-dev");
    let c = remote_cmd(c, host, "gem install jekyll bundler");
    assert(c@.items =~= ssh_items(host@, jekyll_remotes()));
    c
}

pub open spec fn renew_remote() -> Seq<char> {
    "certbot --nginx renew"@
}

/// Renews the certificates that certbot manages on `host`.
pub fn renew_cert(host: &str) -> (r: CommandChain)
    ensures
        r@ == ChainModel::fresh(ssh_items(host@, seq![renew_remote()])),
{
    let c = remote_cmd(CommandChain::new(), host, "certbot --nginx renew");
    assert(c@.items =~= ssh_items(host@, seq![renew_remote()]));
    c
}

/// The firewall rules, in the order they are applied: input is accepted
/// while the table is flushed, malformed and unsolicited packets are
/// dropped, loopback, web, ssh and established traffic is accepted, and
/// only then does input default to being dropped.
pub open spec fn iptables_remotes() -> Seq<Seq<char>> {
    seq![
        "iptables -P INPUT ACCEPT"@,
        "iptables -F"@,
        "iptables -A INPUT -p tcp --tcp-flags ALL NONE -j DROP"@,
        "iptables -A INPUT -p tcp ! --syn -m state --state NEW -j DROP"@,
        "iptables -A INPUT -p tcp --tcp-flags ALL ALL -j DROP"@,
        "iptables -A INPUT -s 127.0.0.1 -j ACCEPT"@,
        "iptables -A INPUT -p tcp -m tcp --dport 80 -j ACCEPT"@,
        "iptables -A INPUT -p tcp -m tcp --dport 443 -j ACCEPT"@,
        "iptables -A INPUT -p tcp -m tcp --dport 22 -j ACCEPT"@,
        "iptables -A INPUT -m state --state ESTABLISHED,RELATED -j ACCEPT"@,
        "iptables -P OUTPUT ACCEPT"@,
        "iptables -P INPUT DROP"@,
    ]
}

/// Sets up the firewall of `host` to accept only web, ssh, loopback and
/// established traffic.
pub fn setup_iptables(host: &str) -> (r: CommandChain)
    ensures
        r@ == ChainModel::fresh(ssh_items(host@, iptables_remotes())),
{
    let c = CommandChain::new();
    let c = remote_cmd(c, host, "iptables -P INPUT ACCEPT");
    let c = remote_cmd(c, host, "iptables -F");
    let c = remote_cmd(c, host, "iptables -A INPUT -p tcp --tcp-flags ALL NONE -j DROP");
    let c = remote_cmd(c, host, "iptables -A INPUT -p tcp ! --syn -m state --state NEW -j DROP");
    let c = remote_cmd(c, host, "iptables -A INPUT -p tcp --tcp-flags ALL ALL -j DROP");
    let c = remote_cmd(c, host, "iptables -A INPUT -s 127.0.0.1 -j ACCEPT");
    let c = remote_cmd(c, host, "iptables -A INPUT -p tcp -m tcp --dport 80 -j ACCEPT");
    let c = remote_cmd(c, host, "iptables -A INPUT -p tcp -m tcp --dport 443 -j ACCEPT");
    let c = remote_cmd(c, host, "iptables -A INPUT -p tcp -m tcp --dport 22 -j ACCEPT");
    let c = remote_cmd(c, host, "iptables -A INPUT -m state --state ESTABLISHED,RELATED -j ACCEPT");
    let c = remote_cmd(c, host, "iptables -P OUTPUT ACCEPT");
    let c = remote_cmd(c, host, "iptables -P INPUT DROP");
    assert(c@.items =~= ssh_items(host@, iptables_remotes()));
    c
}

pub open spec fn sqlite_remotes() -> Seq<Seq<char>> {
    seq!["apt-get update"@, "apt-get install -y sqlite3 libsqlite3-dev"@]
}

/// Installs sqlite3 and its development files on `host`.
pub fn install_sqlite3(host: &str) -> (r: CommandChain)
    ensures
        r@ == ChainModel::fresh(ssh_items(host@, sqlite_remotes())),
{
    let c = CommandChain::new();
    let c = remote_cmd(c, host, "apt-get update");
    let c = remote_cmd(c, host, "apt-get install -y sqlite3 libsqlite3-dev");
    assert(c@.items =~= ssh_items(host@, sqlite_remotes()));
    c
}

} // verus!
