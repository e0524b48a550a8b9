use khost::git::{short_hash, version_string, Origin};
use khost::network::{Interface, Network};
use khost::nginx::{self, Certs, ProxyConfig, ProxyKind, ServerKind};
use khost::systemd;

#[test]
fn unit_file_text() {
    let unit = systemd::Config::new(
        "kaspa-mainnet".to_string(),
        "Kaspad p2p Node (mainnet)".to_string(),
        "operator".to_string(),
        vec!["/home/operator/kaspa/kaspad".to_string(), "--yes".to_string()],
        5,
    );
    assert_eq!(unit.service, "kaspa-mainnet");
    assert_eq!(unit.exec_start, "/home/operator/kaspa/kaspad --yes");
    let expected = "[Unit]\n\
                    Description=Kaspad p2p Node (mainnet)\n\
                    \n\
                    [Service]\n\
                    User=operator\n\
                    ExecStart=/home/operator/kaspa/kaspad --yes\n\
                    RestartSec=5\n\
                    Restart=on-failure\n\
                    \n\
                    [Install]\n\
                    WantedBy=multi-user.target\n";
    assert_eq!(unit.render(), expected);
}

#[test]
fn unit_paths() {
    assert_eq!(
        systemd::service_path("kaspa-mainnet"),
        "/etc/systemd/system/kaspa-mainnet.service"
    );
    assert_eq!(nginx::config_filename("kaspa"), "/etc/nginx/sites-enabled/kaspa.conf");
}

#[test]
fn unit_state_summary() {
    assert_eq!(
        systemd::unit_state("enabled\n", " active "),
        Ok("enabled+active".to_string())
    );
    assert_eq!(
        systemd::unit_state("disabled\n", "inactive\n"),
        Err("disabled+inactive".to_string())
    );
    assert_eq!(systemd::unit_state("enabled", "failed"), Err("enabled+failed".to_string()));
    assert!(systemd::is_active(" active\n"));
    assert!(!systemd::is_active("activating"));
    assert!(systemd::is_enabled("enabled"));
    assert!(systemd::is_failed("failed\n"));
}

#[test]
fn nginx_http_config_text() {
    let kind = ServerKind::http().with_port(8080).with_fqdn(vec![
        "a.example".to_string(),
        "b.example".to_string(),
    ]);
    let routes = vec![
        ProxyConfig::new("/kaspa/mainnet/wrpc/borsh".to_string(), ProxyKind::wrpc(17110)),
        ProxyConfig::new("/".to_string(), ProxyKind::http(8989)),
    ];
    let config = nginx::Config::new("kaspa".to_string(), kind, routes);
    let expected = "# kaspa\n\
                    server {\n\
                    \tlisten 8080;\n\
                    \tlisten [::]:8080;\n\
                    \tserver_name a.example b.example;\n\
                    \tclient_max_body_size 1m;\n\
                    \tlocation /kaspa/mainnet/wrpc/borsh {\n\
                    \t\tproxy_http_version 1.1;\n\
                    \t\tproxy_set_header Host $host;\n\
                    \t\tproxy_set_header X-Real-IP $remote_addr;\n\
                    \t\tproxy_set_header Upgrade $http_upgrade;\n\
                    \t\tproxy_set_header Connection \"Upgrade\";\n\
                    \t\tproxy_pass http://127.0.0.1:17110/;\n\
                    \t}\n\
                    \n\
                    \tlocation / {\n\
                    \t\tproxy_http_version 1.1;\n\
                    \t\tproxy_set_header Host $host;\n\
                    \t\tproxy_set_header X-Real-IP $remote_addr;\n\
                    \t\tproxy_pass http://127.0.0.1:8989/;\n\
                    \t}\n\
                    \n\
                    }\n\
                    \n";
    assert_eq!(config.render(), expected);
}

#[test]
fn nginx_ssl_header() {
    let kind = ServerKind::Ssl {
        port: None,
        certs: Certs::new("/etc/ssl/server.key".to_string(), "/etc/ssl/server.crt".to_string()),
        fqdns: vec!["n.example".to_string()],
    };
    let config = nginx::Config::new("kaspa".to_string(), kind, Vec::new());
    let text = config.render();
    assert!(text.contains("\tlisten 443 ssl;\n"));
    assert!(text.contains("\tssl_certificate /etc/ssl/server.crt\n"));
    assert!(text.contains("\tssl_certificate_key /etc/ssl/server.key\n"));
    assert!(text.contains("\tserver_name n.example;\n"));
}

#[test]
fn nginx_settings_toggle() {
    let mut settings = nginx::Settings::default();
    assert!(settings.certs().is_none());
    settings.enable_certs(Certs::new("k".to_string(), "c".to_string()));
    let certs = settings.certs().unwrap();
    assert_eq!(certs.key, "k");
    assert_eq!(certs.crt, "c");
    settings.disable_certs();
    assert!(settings.certs().is_none());
}

#[test]
fn interface_and_network_rendering() {
    assert_eq!(Interface::Public(8989).render(), "0.0.0.0:8989");
    assert_eq!(Interface::Local(17110).render(), "127.0.0.1:17110");
    assert_eq!(Interface::Local(17110).port(), 17110);
    assert_eq!(Network::Mainnet.render(), "mainnet");
    assert_eq!(Network::Testnet10.render(), "testnet-10");
    assert_eq!(Network::Testnet11.render(), "testnet-11");
    assert_eq!(Network::default(), Network::Mainnet);
}

#[test]
fn origin_parsing() {
    let origin = Origin::try_new("https://github.com/aspectron/rusty-kaspa", Some("pnn-v1"))
        .unwrap();
    assert_eq!(origin.owner(), "aspectron");
    assert_eq!(origin.name(), "rusty-kaspa");
    assert_eq!(origin.branch().unwrap(), "pnn-v1");
    assert_eq!(origin.repository(), "https://github.com/aspectron/rusty-kaspa");
    assert_eq!(origin.folder(), "aspectron/pnn-v1");
    assert_eq!(
        origin.api_url(),
        "https://api.github.com/repos/aspectron/rusty-kaspa/branches/pnn-v1"
    );
}

#[test]
fn origin_parsing_strips_git_suffix() {
    let origin = Origin::try_new("https://github.com/owner/repo.git", None).unwrap();
    assert_eq!(origin.owner(), "owner");
    assert_eq!(origin.name(), "repo");
    assert!(origin.branch().is_none());
    assert_eq!(origin.folder(), "owner/master");
    assert_eq!(origin.api_url(), "https://api.github.com/repos/owner/repo/branches/master");
}

#[test]
fn origin_parsing_rejects_short_urls() {
    assert!(Origin::try_new("no-slashes", None).is_err());
    assert!(Origin::try_new("one/slash", None).is_err());
    assert!(Origin::try_new("a/b/c", None).is_ok());
}

#[test]
fn origin_equality_and_branch_change() {
    let a = Origin::try_new("https://github.com/o/r", Some("b")).unwrap();
    let b = a.clone();
    assert!(a.same(&b));
    let mut c = a.clone();
    c.set_branch(Some("other".to_string()));
    assert!(!a.same(&c));
    let mut d = a.clone();
    d.set_branch(None);
    assert!(!a.same(&d));
}

#[test]
fn revision_helpers() {
    assert_eq!(short_hash(" 0123456789abcdef\n").unwrap(), "0123456");
    assert!(short_hash("abc").is_err());
    assert_eq!(version_string("kaspad 1.2.3\n", "0123456"), "1.2.3-0123456");
    assert_eq!(version_string("1.0.0", "abcdef0"), "1.0.0-abcdef0");
}
