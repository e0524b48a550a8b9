use khost::args::Args;
use khost::config::{Config, CONFIG_VERSION};
use khost::content::Content;
use khost::context::{nginx_service_detail, Context};
use khost::error::Error;
use khost::git::Origin;
use khost::kaspad;
use khost::network::{Interface, Network};
use khost::reconcile::{ObservedUnit, Step};
use khost::resolver;
use khost::service::{enable_services, ServiceKind};
use khost::status::{is_conflicting_path, Conflict, Status};
use khost::system::{disk_usage, system_id_from_bytes, DiskUsage, System};

const GIB: u64 = 1024 * 1024 * 1024;

fn test_system(total_memory: u64) -> System {
    System {
        system_id: Some(0xe311_0000_0000_0042),
        cpu_physical_cores: Some(8),
        cpu_frequency: Some(3000),
        cpu_brand: None,
        total_memory,
        long_os_version: None,
        disk_usage: None,
    }
}

fn test_context(total_memory: u64) -> Context {
    Context {
        args: Args::default(),
        system: test_system(total_memory),
        username: "operator".to_string(),
        home: "/home/operator".to_string(),
        config: Config::try_new().unwrap(),
    }
}

#[test]
fn default_config_shape() {
    let config = Config::try_new().unwrap();
    assert_eq!(config.version, CONFIG_VERSION);
    assert!(!config.bootstrap);
    assert!(config.public);
    assert!(config.fqdn.is_none());
    assert!(config.nginx.certs.is_none());
    assert!(!config.resolver.enabled);
    assert!(config.resolver.stats);
    assert_eq!(config.resolver.http, Some(Interface::Local(8989)));
    assert_eq!(config.kaspad.len(), 3);
    assert_eq!(config.kaspad[0].network, Network::Mainnet);
    assert_eq!(config.kaspad[1].network, Network::Testnet10);
    assert_eq!(config.kaspad[2].network, Network::Testnet11);
    for node in &config.kaspad {
        assert!(!node.enabled);
        assert_eq!(node.origin.owner(), "aspectron");
        assert_eq!(node.origin.branch().unwrap(), "pnn-v1");
        assert_eq!(node.outgoing_peers, Some(32));
        assert_eq!(node.max_incoming_peers, Some(256));
    }
    assert_eq!(config.kaspad[0].grpc, Some(Interface::Local(16110)));
    assert_eq!(config.kaspad[1].wrpc_borsh, Some(Interface::Local(17210)));
    assert_eq!(config.kaspad[2].wrpc_json, Some(Interface::Local(18310)));
}

#[test]
fn migration_renames_superseded_branch() {
    let mut config = Config::try_new().unwrap();
    config.version = 0;
    config.kaspad[0].origin.set_branch(Some("omega".to_string()));
    config.kaspad[1].origin.set_branch(None);
    let changed = config.migrate();
    assert!(changed);
    assert_eq!(config.kaspad[0].origin.branch().unwrap(), "pnn-v1");
    assert!(config.kaspad[1].origin.branch().is_none());
    assert_eq!(config.kaspad[2].origin.branch().unwrap(), "pnn-v1");
}

#[test]
fn migration_skips_current_schema() {
    let mut config = Config::try_new().unwrap();
    config.kaspad[0].origin.set_branch(Some("omega".to_string()));
    let changed = config.migrate();
    assert!(!changed);
    assert_eq!(config.kaspad[0].origin.branch().unwrap(), "omega");
}

#[test]
fn node_unit_name_and_args() {
    let config = Config::try_new().unwrap();
    let mainnet = &config.kaspad[0];
    assert_eq!(mainnet.service_name(), "kaspa-mainnet");
    assert_eq!(
        mainnet.args(),
        vec![
            "--yes",
            "--perf-metrics",
            "--perf-metrics-interval-sec=1",
            "--utxoindex",
            "--loglevel=info,kaspad_lib::daemon=trace ",
            "--disable-upnp",
            "--outpeers=32",
            "--maxinpeers=256",
            "--rpclisten=127.0.0.1:16110",
            "--rpclisten-borsh=127.0.0.1:17110",
            "--rpclisten-json=127.0.0.1:18110",
        ]
    );
    let testnet = &config.kaspad[1];
    let args = testnet.args();
    assert_eq!(args[0], "--testnet");
    assert_eq!(args[1], "--netsuffix=10");
}

#[test]
fn node_data_folder_and_routes() {
    let config = Config::try_new().unwrap();
    let mainnet = &config.kaspad[0];
    assert_eq!(
        mainnet.data_folder("/home/operator"),
        "/home/operator/.rusty-kaspa/kaspa-mainnet"
    );
    let routes = mainnet.proxy_routes();
    assert_eq!(routes.len(), 2);
    assert_eq!(routes[0].path, "/kaspa/mainnet/wrpc/borsh");
    assert_eq!(routes[1].path, "/kaspa/mainnet/wrpc/json");
}

#[test]
fn node_unit_definition() {
    let ctx = test_context(32 * GIB);
    let unit = kaspad::create_systemd_unit(&ctx, &ctx.config.kaspad[0]);
    assert_eq!(unit.service, "kaspa-mainnet");
    assert_eq!(unit.description, "Kaspad p2p Node (mainnet)");
    assert_eq!(unit.user, "operator");
    assert!(unit.exec_start.starts_with(
        "/home/operator/kaspa/rusty-kaspa/aspectron/pnn-v1/target/release/kaspad --yes"
    ));
    assert_eq!(unit.restart_secs, 5);
}

#[test]
fn resolver_unit_definition_and_args() {
    let ctx = test_context(32 * GIB);
    let unit = resolver::create_systemd_unit(&ctx, &ctx.config.resolver);
    assert_eq!(unit.service, "kaspa-resolver");
    assert_eq!(unit.description, "Kaspa Resolver");
    assert_eq!(
        unit.exec_start,
        "/home/operator/kaspa/kaspa-resolver/aspectron/master/target/release/resolver --stats --listen=127.0.0.1:8989"
    );
    assert_eq!(ctx.config.resolver.args(), vec!["--stats", "--listen=127.0.0.1:8989"]);
}

#[test]
fn resolver_paths_and_key_files() {
    assert_eq!(
        resolver::resolver_config_folder("/home/operator"),
        "/home/operator/.kaspa-resolver"
    );
    assert_eq!(resolver::key_file(), ".key");
    assert_eq!(resolver::resolver_config_file(1), "resolver.1.bin");
    assert_eq!(resolver::resolver_config_file(12), "resolver.12.bin");
}

#[test]
fn resolver_key_prefix_check() {
    let key = vec![0xe3, 0x11, 0xaa, 0xbb];
    assert!(resolver::verify_key_prefix(&key, Some(0xe311)).is_ok());
    assert!(resolver::verify_key_prefix(&key, None).is_ok());
    match resolver::verify_key_prefix(&key, Some(0xe312)) {
        Err(Error::ResolverKeyPrefix(expected, actual)) => {
            assert_eq!(expected, 0xe312);
            assert_eq!(actual, 0xe311);
        }
        other => panic!("unexpected result: {:?}", other),
    }
}

#[test]
fn error_messages() {
    assert_eq!(Error::NotFound.message(), "Not found");
    assert_eq!(
        Error::Repository("x/y".to_string()).message(),
        "Invalid repository URL: x/y"
    );
    assert_eq!(
        Error::ResolverKeyPrefix(0xe311, 0x0042).message(),
        "Resolver key prefix mismatch: expected e311 got 0042"
    );
    assert_eq!(Error::custom("boom".to_string()).message(), "boom");
}

#[test]
fn service_lists() {
    let mut ctx = test_context(32 * GIB);
    ctx.config.kaspad[0].enable();
    ctx.config.resolver.enabled = true;
    let all = ctx.services();
    assert_eq!(all.len(), 5);
    assert_eq!(all[0].name, "kaspa-mainnet");
    assert_eq!(all[3].name, "kaspa-resolver");
    assert_eq!(all[4].name, "nginx");
    assert!(!all[4].managed);
    let active = ctx.active_services();
    let names: Vec<&str> = active.iter().map(|d| d.name.as_str()).collect();
    assert_eq!(names, vec!["kaspa-mainnet", "kaspa-resolver", "nginx"]);
    let managed = ctx.managed_services();
    assert_eq!(managed.len(), 4);
    let managed_active = ctx.managed_active_services();
    assert_eq!(managed_active.len(), 2);
    let detail = nginx_service_detail();
    assert_eq!(detail.render(), "Nginx (nginx)");
}

#[test]
fn route_aggregation() {
    let ctx = test_context(32 * GIB);
    let routes = ctx.proxy_configs();
    // Two wRPC routes per node instance, then the resolver's root route.
    assert_eq!(routes.len(), 7);
    assert_eq!(routes[0].path, "/kaspa/mainnet/wrpc/borsh");
    assert_eq!(routes[6].path, "/");
}

#[test]
fn enable_services_sets_resolver_and_returns_networks() {
    let mut ctx = test_context(32 * GIB);
    let selection = vec![
        ctx.config.kaspad[0].detail(),
        ctx.config.resolver.detail(),
    ];
    let networks = enable_services(&mut ctx.config, &selection);
    assert_eq!(networks, vec![Network::Mainnet]);
    assert!(ctx.config.resolver.enabled);
    let empty = enable_services(&mut ctx.config, &Vec::new());
    assert!(empty.is_empty());
    assert!(!ctx.config.resolver.enabled);
}

#[test]
fn configure_networks_applies_selection() {
    let mut ctx = test_context(32 * GIB);
    let applied = kaspad::configure_networks(
        &mut ctx,
        &vec![Network::Mainnet, Network::Testnet10],
        false,
    );
    assert!(applied);
    assert!(ctx.config.kaspad[0].enabled);
    assert!(ctx.config.kaspad[1].enabled);
    assert!(!ctx.config.kaspad[2].enabled);
}

#[test]
fn configure_networks_gates_on_memory() {
    let mut ctx = test_context(8 * GIB);
    let refused = kaspad::configure_networks(
        &mut ctx,
        &vec![Network::Mainnet, Network::Testnet10],
        false,
    );
    assert!(!refused);
    assert!(!ctx.config.kaspad[0].enabled);
    // A repeated single network is not a multi-network selection.
    let single = kaspad::configure_networks(
        &mut ctx,
        &vec![Network::Mainnet, Network::Mainnet],
        false,
    );
    assert!(single);
    assert!(ctx.config.kaspad[0].enabled);
    // The override lets a real multi-network selection through.
    let overridden = kaspad::configure_networks(
        &mut ctx,
        &vec![Network::Mainnet, Network::Testnet10],
        true,
    );
    assert!(overridden);
    assert!(ctx.config.kaspad[1].enabled);
}

#[test]
fn node_reconfigure_plans() {
    let mut ctx = test_context(32 * GIB);
    ctx.config.kaspad[0].enable();
    let observed = vec![
        ObservedUnit { exists: false, enabled: false, active: false },
        ObservedUnit { exists: true, enabled: true, active: true },
        ObservedUnit { exists: false, enabled: false, active: false },
    ];
    let steps = kaspad::reconfigure(&ctx, &observed, false);
    assert_eq!(
        steps,
        vec![
            Step::Stop(1),
            Step::Disable(1),
            Step::Delete(1),
            Step::WriteUnit(0),
            Step::DaemonReload,
            Step::Enable(0),
            Step::Start(0),
        ]
    );
    let uninstall = kaspad::uninstall(&ctx, &observed);
    assert!(uninstall.is_empty());
    ctx.config.kaspad[1].enable();
    let uninstall = kaspad::uninstall(&ctx, &observed);
    assert_eq!(uninstall, vec![Step::Stop(1), Step::Disable(1), Step::Delete(1)]);
}

#[test]
fn resolver_reconfigure_plans() {
    let mut ctx = test_context(32 * GIB);
    ctx.config.resolver.enabled = true;
    let absent = ObservedUnit { exists: false, enabled: false, active: false };
    let steps = resolver::reconfigure(&ctx, absent, false);
    assert_eq!(
        steps,
        vec![Step::WriteUnit(0), Step::DaemonReload, Step::Enable(0), Step::Start(0)]
    );
    ctx.config.resolver.enabled = false;
    let running = ObservedUnit { exists: true, enabled: true, active: true };
    let steps = resolver::reconfigure(&ctx, running, false);
    assert_eq!(steps, vec![Step::Stop(0), Step::Disable(0), Step::Delete(0)]);
}

#[test]
fn node_index_lookups() {
    let mut ctx = test_context(32 * GIB);
    ctx.config.kaspad[1].enable();
    assert_eq!(kaspad::find_config_by_network(&ctx, Network::Testnet10), Some(1));
    let detail = ctx.config.kaspad[2].detail();
    assert_eq!(kaspad::find_config_by_service_detail(&ctx, &detail), Some(2));
    assert_eq!(kaspad::active_configs(&ctx), vec![1]);
    assert_eq!(kaspad::inactive_configs(&ctx), vec![0, 2]);
    assert_eq!(kaspad::stop_all(&ctx), vec!["kaspa-testnet-10"]);
    assert_eq!(kaspad::restart_all(&ctx), kaspad::start_all(&ctx));
}

#[test]
fn unique_origins_dedup() {
    let mut ctx = test_context(32 * GIB);
    let origins = kaspad::unique_origins(&ctx);
    assert_eq!(origins.len(), 1);
    let other = Origin::try_new("https://github.com/other/rusty-kaspa", None).unwrap();
    ctx.config.kaspad[2].set_origin(other);
    let origins = kaspad::unique_origins(&ctx);
    assert_eq!(origins.len(), 2);
}

#[test]
fn folder_layout() {
    assert_eq!(khost::folders::data_folder("/home/op"), "/home/op/.khost");
    assert_eq!(khost::folders::root_folder("/home/op"), "/home/op/kaspa");
    assert_eq!(khost::folders::temp_folder("/home/op"), "/home/op/.temp");
    let origin = Origin::try_new("https://github.com/aspectron/rusty-kaspa", Some("pnn-v1"))
        .unwrap();
    assert_eq!(
        kaspad::binary(&origin, "/home/op/kaspa"),
        "/home/op/kaspa/rusty-kaspa/aspectron/pnn-v1/target/release/kaspad"
    );
    assert_eq!(
        resolver::binary(&origin, "/home/op/kaspa"),
        "/home/op/kaspa/kaspa-resolver/aspectron/pnn-v1/target/release/resolver"
    );
}

#[test]
fn disk_usage_parsing() {
    let report = "Filesystem     1K-blocks      Used Available Use% Mounted on\n\
                  /dev/sda1      102400000  51200000  46080000  53% /home";
    let usage = disk_usage(report).unwrap();
    assert_eq!(
        usage,
        DiskUsage {
            total: 102400000 * 1024,
            used: 51200000 * 1024,
            available: 46080000 * 1024,
        }
    );
    assert!(disk_usage("no fields here").is_none());
    assert!(disk_usage("a b c\nx one two three").is_none());
}

#[test]
fn system_identity() {
    let digest = vec![0xe3, 0x11, 0, 0, 0, 0, 0, 0x42, 0xff, 0xff];
    assert_eq!(system_id_from_bytes(&digest), Some(0xe311_0000_0000_0042));
    assert_eq!(system_id_from_bytes(&vec![1, 2, 3]), None);
    let system = test_system(32 * GIB);
    assert_eq!(system.system_id_as_hex(), "e311000000000042");
    assert_eq!(system.ram_as_gb(), 32);
}

#[test]
fn status_screen() {
    let ctx = test_context(32 * GIB);
    let status = Status {
        ip: Some("203.0.113.7".to_string()),
        system: test_system(32 * GIB),
        services: vec![
            (ctx.config.kaspad[0].detail(), Ok("enabled+active".to_string())),
            (nginx_service_detail(), Err("disabled+inactive".to_string())),
        ],
    };
    let screen = status.render(vec![Content::field("RAM:".to_string(), "32 GB".to_string())]);
    let lines: Vec<&str> = screen.lines().collect();
    // The widest key, "Kaspa p2p node (kaspa-mainnet)", sets the alignment.
    assert_eq!(lines[0], format!("{:>30} 32 GB", "RAM:"));
    assert_eq!(lines[2], format!("{:>30} e311000000000042", "System id:"));
    assert_eq!(lines[3], format!("{:>30} 203.0.113.7", "Public ip:"));
    assert_eq!(lines[5], "Kaspa p2p node (kaspa-mainnet) enabled+active");
    assert_eq!(lines[6], format!("{:>30} aspectron/pnn-v1", ""));
    assert_eq!(lines[7], format!("{:>30} disabled+inactive", "Nginx (nginx)"));
    assert!(screen.ends_with('\n'));
}

#[test]
fn content_alignment() {
    let rows = vec![
        Content::field("OS:".to_string(), "Linux".to_string()),
        Content::space(),
        Content::separator(),
        Content::field("Storage:".to_string(), "1 TB".to_string()),
    ];
    let block = khost::content::content(&rows);
    let expected = format!("     OS: Linux\n\n{}\nStorage: 1 TB", "\u{2500}".repeat(14));
    assert_eq!(block, expected);
}

#[test]
fn conflict_paths() {
    assert!(is_conflicting_path("/opt/kaspad", "/home/op/kaspa"));
    assert!(!is_conflicting_path("/home/op/kaspa/rusty-kaspa/kaspad", "/home/op/kaspa"));
    assert!(!is_conflicting_path("/usr/bin/vim", "/home/op/kaspa"));
    assert!(is_conflicting_path("/srv/kaspa-resolver", "/home/op/kaspa"));
    let warning = Conflict::warning("look".to_string());
    assert_eq!(warning.message(), "look");
}

#[test]
fn shaping_helpers() {
    assert_eq!(
        khost::utils::truncate_to_terminal("short\na far too long line here", 12),
        "short\na far too..."
    );
    assert_eq!(
        khost::sudo::sudoers_entry("operator"),
        "operator ALL=ALL NOPASSWD: ALL\n"
    );
    assert_eq!(khost::sudo::sudoers_entry_path(), "/etc/sudoers.d/khost");
    let args = khost::sudo::sudo_args(
        true,
        &"systemctl".to_string(),
        &vec!["start".to_string(), "kaspa-mainnet".to_string()],
    );
    assert_eq!(args, vec!["-kS", "-p", "", "systemctl", "start", "kaspa-mainnet"]);
    let bare = khost::sudo::sudo_args(false, &"systemctl".to_string(), &Vec::new());
    assert_eq!(bare, vec!["systemctl"]);
}

#[test]
fn self_maintenance_decisions() {
    assert!(khost::khost::is_cargo_install("/home/op/.cargo/bin/khost"));
    assert!(!khost::khost::is_cargo_install("/usr/local/bin/khost"));
    assert!(khost::khost::reconfigure_required(&None, "0.2.0"));
    assert!(khost::khost::reconfigure_required(&Some("0.1.0".to_string()), "0.2.0"));
    assert!(!khost::khost::reconfigure_required(&Some("0.2.0".to_string()), "0.2.0"));
}

#[test]
fn wildcard_domains() {
    let domains = khost::fqdn::get();
    assert_eq!(domains.len(), 9);
    assert_eq!(domains[0], "*.kaspa.stream");
    assert_eq!(khost::fqdn::flatten(&domains[..2].to_vec()), "*.kaspa.stream *.kaspa.red");
}

#[test]
fn resolver_certs_fall_back_to_proxy() {
    let mut ctx = test_context(32 * GIB);
    assert!(resolver::certs(&ctx).is_none());
    ctx.config.nginx.enable_certs(khost::nginx::Certs::new("k".to_string(), "c".to_string()));
    let certs = resolver::certs(&ctx).unwrap();
    assert_eq!(certs.crt, "c");
    ctx.config.resolver.certs =
        Some(khost::nginx::Certs::new("rk".to_string(), "rc".to_string()));
    let certs = resolver::certs(&ctx).unwrap();
    assert_eq!(certs.key, "rk");
}

#[test]
fn service_kind_selection() {
    let detail = nginx_service_detail();
    assert_eq!(detail.kind, ServiceKind::Nginx);
    let ctx = test_context(32 * GIB);
    assert_eq!(ctx.config.kaspad[0].detail().kind, ServiceKind::Kaspad(Network::Mainnet));
    assert!(kaspad::update_available("abc1234", "def5678"));
    assert!(!kaspad::update_available("abc1234", "abc1234"));
    assert!(kaspad::supports_multiple_networks(&ctx, 2));
}

#[test]
fn whole_state_entries() {
    let mut ctx = test_context(32 * GIB);
    ctx.config.kaspad[0].enable();
    ctx.config.resolver.enabled = true;
    let absent = ObservedUnit { exists: false, enabled: false, active: false };
    let observed = vec![absent; 4];
    let entries = ctx.reconcile_entries(&observed);
    assert_eq!(entries.len(), 4);
    assert!(entries[0].enabled && entries[0].node_instance);
    assert!(!entries[1].enabled && entries[1].node_instance);
    assert!(entries[3].enabled && !entries[3].node_instance);
}

#[test]
fn proxy_site_definition() {
    let mut ctx = test_context(32 * GIB);
    let site = ctx.proxy_site();
    assert_eq!(site.service_name, "kaspa");
    assert_eq!(site.proxy_config.len(), 7);
    match &site.server_kind {
        khost::nginx::ServerKind::Http { port, fqdns } => {
            assert!(port.is_none());
            assert_eq!(fqdns.len(), 9);
            assert_eq!(fqdns[0], "*.kaspa.stream");
        }
        other => panic!("unexpected server kind: {:?}", other),
    }
    ctx.config.nginx.enable_certs(khost::nginx::Certs::new("k".to_string(), "c".to_string()));
    ctx.config.fqdn = Some(vec!["node.example".to_string()]);
    let site = ctx.proxy_site();
    match &site.server_kind {
        khost::nginx::ServerKind::Ssl { certs, fqdns, .. } => {
            assert_eq!(certs.key, "k");
            assert_eq!(fqdns.as_slice(), ["node.example".to_string()]);
        }
        other => panic!("unexpected server kind: {:?}", other),
    }
}

#[test]
fn whole_state_reconcile_round() {
    let mut ctx = test_context(32 * GIB);
    ctx.config.kaspad[0].enable();
    ctx.config.resolver.enabled = true;
    let absent = ObservedUnit { exists: false, enabled: false, active: false };
    let observed = vec![absent; 4];
    let entries = ctx.reconcile_entries(&observed);
    let steps = khost::reconcile::reconcile(&entries, false, true, 32 * GIB, false).unwrap();
    let outcomes = vec![true; steps.len()];
    let after = khost::reconcile::apply_plan(&observed, &steps, &outcomes);
    let up = ObservedUnit { exists: true, enabled: true, active: true };
    assert_eq!(after[0], up);
    assert!(!after[1].exists);
    assert!(!after[2].exists);
    assert_eq!(after[3], up);
    // A second pass over the converged state plans nothing.
    let entries = ctx.reconcile_entries(&after);
    let again = khost::reconcile::reconcile(&entries, false, false, 32 * GIB, false).unwrap();
    assert!(again.is_empty());
}
