use breezyvps::chain::{CommandChain, Item, Mapping};
use breezyvps::configure::{
    add_nginx_host, certbot_run_command, install_jekyll, install_letsencrypt_cert, install_nginx,
    install_python, install_rust, install_sqlite3, nginx_host_config, nginx_host_file, renew_cert,
    setup_iptables, ssh_command,
};
use breezyvps::digitalocean::{
    create_droplet_by_name, create_sshkey, destroy_droplet_by_name, get_subdomain_from_name,
};

fn literal(item: &Item) -> (&str, bool) {
    match item {
        Item::FatalCommand(t) => (t.as_str(), true),
        Item::NonFatalCommand(t) => (t.as_str(), false),
        _ => panic!("not a literal command"),
    }
}

fn fatal_lines(chain: &CommandChain) -> Vec<String> {
    chain
        .commands
        .iter()
        .map(|i| {
            let (t, fatal) = literal(i);
            assert!(fatal);
            t.to_string()
        })
        .collect()
}

#[test]
fn ssh_command_wraps_remote_command() {
    assert_eq!(ssh_command("a.example.com", "ls -l"), "ssh root@a.example.com 'ls -l'");
}

#[test]
fn install_rust_chain() {
    assert_eq!(
        fatal_lines(&install_rust("h")),
        vec!["ssh root@h 'curl https://sh.rustup.rs -sSf | sh -s -- -y'"]
    );
}

#[test]
fn install_python_chain() {
    assert_eq!(
        fatal_lines(&install_python("h")),
        vec!["ssh root@h 'apt-get update && apt-get install -y python'"]
    );
}

#[test]
fn install_nginx_chain() {
    assert_eq!(
        fatal_lines(&install_nginx("h")),
        vec!["ssh root@h 'apt-get update && apt-get install -y nginx'"]
    );
}

#[test]
fn install_jekyll_chain() {
    assert_eq!(
        fatal_lines(&install_jekyll("h")),
        vec![
            "ssh root@h 'apt-get update && apt-get install -y rubygems build-essential ruby-dev'",
            "ssh root@h 'gem install jekyll bundler'",
        ]
    );
}

#[test]
fn renew_cert_chain() {
    assert_eq!(fatal_lines(&renew_cert("h")), vec!["ssh root@h 'certbot --nginx renew'"]);
}

#[test]
fn install_sqlite3_chain() {
    assert_eq!(
        fatal_lines(&install_sqlite3("h")),
        vec!["ssh root@h 'apt-get update'", "ssh root@h 'apt-get install -y sqlite3 libsqlite3-dev'"]
    );
}

#[test]
fn setup_iptables_chain() {
    let lines = fatal_lines(&setup_iptables("h"));
    assert_eq!(lines.len(), 12);
    assert_eq!(lines[0], "ssh root@h 'iptables -P INPUT ACCEPT'");
    assert_eq!(lines[1], "ssh root@h 'iptables -F'");
    assert_eq!(lines[8], "ssh root@h 'iptables -A INPUT -p tcp -m tcp --dport 22 -j ACCEPT'");
    assert_eq!(lines[11], "ssh root@h 'iptables -P INPUT DROP'");
}

#[test]
fn letsencrypt_chain_and_hint() {
    assert_eq!(
        fatal_lines(&install_letsencrypt_cert("h")),
        vec!["ssh root@h 'add-apt-repository ppa:certbot/certbot && apt-get update && apt-get install -y python-certbot-nginx'"]
    );
    assert_eq!(certbot_run_command("h"), "ssh root@h 'certbot --nginx -d h'");
}

#[test]
fn nginx_host_file_and_copy() {
    assert_eq!(nginx_host_file("h.io"), "/tmp/h.io.conf");
    assert_eq!(fatal_lines(&add_nginx_host("h.io", "9000")), vec!["scp /tmp/h.io.conf root@h.io:/etc/nginx/conf.d/"]);
}

#[test]
fn nginx_config_fills_placeholders() {
    let conf = nginx_host_config("h.io", "9000");
    assert!(conf.contains("    server_name h.io;\n"));
    assert!(conf.contains("proxy_pass http://localhost:9000;"));
    assert!(!conf.contains("{1}"));
    assert!(!conf.contains("{2}"));
}

#[test]
fn subdomain_of_names() {
    assert_eq!(get_subdomain_from_name("cloud.one.haus"), "cloud");
    assert_eq!(get_subdomain_from_name("a.b.c.d"), "a");
    assert_eq!(get_subdomain_from_name("one.haus"), "@");
    assert_eq!(get_subdomain_from_name("localhost"), "@");
    assert_eq!(get_subdomain_from_name(""), "@");
    assert_eq!(get_subdomain_from_name("..x"), "");
}

#[test]
fn create_droplet_chain_with_defaults() {
    let chain = create_droplet_by_name("cloud.one.haus", None, None, None);
    assert_eq!(chain.commands.len(), 4);
    assert_eq!(literal(&chain.commands[0]), ("doctl compute ssh-key list --no-header --format=ID", true));
    match &chain.commands[1] {
        Item::ResultMappedCommand(Mapping::Lines { token, separator }, template, true) => {
            assert_eq!(token, "%ssh_keys%");
            assert_eq!(separator, ",");
            assert_eq!(
                template,
                "doctl compute droplet create cloud.one.haus --image=ubuntu-16-04-x64 --region=sfo1 --size=512mb --ssh-keys=\"%ssh_keys%\" --wait"
            );
        },
        _ => panic!("expected the key mapping"),
    }
    assert_eq!(
        literal(&chain.commands[2]),
        ("doctl compute droplet list --format Name,PublicIPv4,PublicIPv6,Status", true)
    );
    match &chain.commands[3] {
        Item::ResultMappedCommand(Mapping::KeyedValue { token, key }, template, true) => {
            assert_eq!(token, "%ip_address%");
            assert_eq!(key, "cloud.one.haus");
            assert_eq!(
                template,
                "doctl compute domain records create one.haus --record-type=A --record-data=%ip_address% --record-name=cloud"
            );
        },
        _ => panic!("expected the address mapping"),
    }
}

#[test]
fn create_droplet_chain_with_options() {
    let chain = create_droplet_by_name("best.haus", Some("nyc1"), Some("1gb"), Some("best.haus"));
    match &chain.commands[1] {
        Item::ResultMappedCommand(_, template, _) => assert_eq!(
            template,
            "doctl compute droplet create best.haus --image=ubuntu-16-04-x64 --region=nyc1 --size=1gb --ssh-keys=\"%ssh_keys%\" --wait"
        ),
        _ => panic!("expected a mapped command"),
    }
    match &chain.commands[3] {
        Item::ResultMappedCommand(_, template, _) => assert_eq!(
            template,
            "doctl compute domain records create best.haus --record-type=A --record-data=%ip_address% --record-name=@"
        ),
        _ => panic!("expected a mapped command"),
    }
}

#[test]
fn destroy_droplet_chain() {
    let chain = destroy_droplet_by_name("cloud.one.haus", Some("util.in"));
    assert_eq!(chain.commands.len(), 3);
    assert_eq!(literal(&chain.commands[0]), ("doctl compute droplet delete -f cloud.one.haus", false));
    assert_eq!(
        literal(&chain.commands[1]),
        ("doctl compute domain records list util.in --format Name,ID --no-header", true)
    );
    match &chain.commands[2] {
        Item::ResultMappedCommand(Mapping::KeyedValue { token, key }, template, true) => {
            assert_eq!(token, "%record_id%");
            assert_eq!(key, "cloud");
            assert_eq!(template, "doctl compute domain records delete -f util.in %record_id%");
        },
        _ => panic!("expected the record mapping"),
    }
}

#[test]
fn create_sshkey_chain() {
    assert_eq!(
        fatal_lines(&create_sshkey("laptop")),
        vec!["doctl compute ssh-key create laptop --public-key=\"$(cat ~/.ssh/id_rsa.pub)\""]
    );
}
