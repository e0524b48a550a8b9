//! The p2p node service: one configuration per network, its derived
//! command line, unit definition and reverse-proxy routes, and the node
//! side of reconciliation. Building, fetching and process control live in
//! the surrounding program.

use vstd::prelude::*;
use crate::context::Context;
use crate::git::{Origin, OriginView};
use crate::network::{interface_text, network_name, Interface, Network};
use crate::nginx::{Certs, ProxyConfig, ProxyKind};
use crate::reconcile::{plan_spec, ObservedUnit, ReconcileEntry, Step};
use crate::service::{Service, ServiceDetail, ServiceKind};
use crate::text::{dec_digits, joined};

verus! {

/// The desired state of one p2p node instance.
#[derive(Debug)]
pub struct Config {
    pub enabled: bool,
    pub certs: Option<Certs>,
    pub origin: Origin,
    pub network: Network,
    pub data_folder: Option<String>,
    pub enable_upnp: bool,
    pub outgoing_peers: Option<u16>,
    pub max_incoming_peers: Option<u16>,
    pub grpc: Option<Interface>,
    pub wrpc_borsh: Option<Interface>,
    pub wrpc_json: Option<Interface>,
}

/// The spec-level view of a node configuration.
#[verifier::ext_equal]
pub struct ConfigView {
    pub enabled: bool,
    pub certs: Option<(Seq<char>, Seq<char>)>,
    pub origin: OriginView,
    pub network: Network,
    pub data_folder: Option<Seq<char>>,
    pub enable_upnp: bool,
    pub outgoing_peers: Option<u16>,
    pub max_incoming_peers: Option<u16>,
    pub grpc: Option<Interface>,
    pub wrpc_borsh: Option<Interface>,
    pub wrpc_json: Option<Interface>,
}

impl View for Config {
    type V = ConfigView;

    open spec fn view(&self) -> ConfigView {
        ConfigView {
            enabled: self.enabled,
            certs: match self.certs {
                Some(c) => Some((c.key@, c.crt@)),
                None => None,
            },
            origin: self.origin@,
            network: self.network,
            data_folder: match self.data_folder {
                Some(d) => Some(d@),
                None => None,
            },
            enable_upnp: self.enable_upnp,
            outgoing_peers: self.outgoing_peers,
            max_incoming_peers: self.max_incoming_peers,
            grpc: self.grpc,
            wrpc_borsh: self.wrpc_borsh,
            wrpc_json: self.wrpc_json,
        }
    }
}

impl Clone for Config {
    /// An exact copy of the configuration.
    fn clone(&self) -> (r: Config)
        ensures
            r@ == self@,
    {
        Config {
            enabled: self.enabled,
            certs: match &self.certs {
                Some(c) => Some(c.clone()),
                None => None,
            },
            origin: self.origin.clone(),
            network: self.network,
            data_folder: match &self.data_folder {
                Some(d) => Some(d.clone()),
                None => None,
            },
            enable_upnp: self.enable_upnp,
            outgoing_peers: self.outgoing_peers,
            max_incoming_peers: self.max_incoming_peers,
            grpc: self.grpc,
            wrpc_borsh: self.wrpc_borsh,
            wrpc_json: self.wrpc_json,
        }
    }
}

/// The default gRPC, Borsh and JSON ports of a network.
pub open spec fn default_ports(network: Network) -> (u16, u16, u16) {
    match network {
        Network::Mainnet => (16110u16, 17110u16, 18110u16),
        Network::Testnet10 => (16210u16, 17210u16, 18210u16),
        Network::Testnet11 => (16310u16, 17310u16, 18310u16),
    }
}

/// The unit name of the node instance on a network: `kaspa-` and the
/// network name.
pub open spec fn unit_name_text(network: Network) -> Seq<char> {
    "kaspa-"@ + network_name(network)
}

impl Config {
    /// A disabled node instance with the default ports of its network,
    /// local interfaces, UPnP off and the default peer limits.
    pub fn new(origin: Origin, network: Network) -> (r: Config)
        ensures
            r@ == (ConfigView {
                enabled: false,
                certs: None,
                origin: origin@,
                network: network,
                data_folder: None,
                enable_upnp: false,
                outgoing_peers: Some(32u16),
                max_incoming_peers: Some(256u16),
                grpc: Some(Interface::Local(default_ports(network).0)),
                wrpc_borsh: Some(Interface::Local(default_ports(network).1)),
                wrpc_json: Some(Interface::Local(default_ports(network).2)),
            }),
    {
        let ports: (u16, u16, u16) = match network {
            Network::Mainnet => (16110, 17110, 18110),
            Network::Testnet10 => (16210, 17210, 18210),
            Network::Testnet11 => (16310, 17310, 18310),
        };
        Config {
            enabled: false,
            certs: None,
            origin,
            network,
            data_folder: None,
            enable_upnp: false,
            outgoing_peers: Some(32),
            max_incoming_peers: Some(256),
            grpc: Some(Interface::Local(ports.0)),
            wrpc_borsh: Some(Interface::Local(ports.1)),
            wrpc_json: Some(Interface::Local(ports.2)),
        }
    }

    /// Whether the operator wants this instance enabled.
    pub fn is_enabled(&self) -> (r: bool)
        ensures
            r == self.enabled,
    {
        self.enabled
    }

    /// The network this instance joins.
    pub fn network(&self) -> (r: Network)
        ensures
            r == self.network,
    {
        self.network
    }

    /// Marks the instance as desired enabled.
    pub fn enable(&mut self)
        ensures
            final(self)@ == (ConfigView { enabled: true, ..old(self)@ }),
    {
        self.enabled = true;
    }

    /// Marks the instance as desired disabled.
    pub fn disable(&mut self)
        ensures
            final(self)@ == (ConfigView { enabled: false, ..old(self)@ }),
    {
        self.enabled = false;
    }

    /// Replaces the source origin.
    pub fn set_origin(&mut self, origin: Origin)
        ensures
            final(self)@ == (ConfigView { origin: origin@, ..old(self)@ }),
    {
        self.origin = origin;
    }

    /// The unit name of the instance.
    pub fn service_name(&self) -> (r: String)
        ensures
            r@ == unit_name_text(self.network),
    {
        let mut out = String::from_str("kaspa-");
        out.append(self.network.render());
        out
    }

    /// The human caption of the instance.
    pub fn service_title(&self) -> (r: String)
        ensures
            r@ == "Kaspa p2p node"@,
    {
        String::from_str("Kaspa p2p node")
    }

    /// The data folder: the configured one, or
    /// `home/.rusty-kaspa/unit-name`.
    pub fn data_folder(&self, home: &str) -> (r: String)
        ensures
            r@ == (match self@.data_folder {
                Some(d) => d,
                None => home@ + "/.rusty-kaspa/"@ + unit_name_text(self.network),
            }),
    {
        match &self.data_folder {
            Some(d) => d.clone(),
            None => {
                let mut out = home.to_owned();
                out.append("/.rusty-kaspa/");
                let name = self.service_name();
                out.append(name.as_str());
                out
            },
        }
    }

    /// The network, fixed, UPnP and peer-limit arguments.
    #[verifier::rlimit(100)]
    fn args_prefix(&self) -> (r: Vec<String>)
        ensures
            r@.map_values(|s: String| s@) == network_args(self@.network) + fixed_args() + (
            if !self@.enable_upnp {
                seq!["--disable-upnp"@]
            } else {
                Seq::<Seq<char>>::empty()
            }) + (match self@.outgoing_peers {
                Some(n) => seq!["--outpeers="@ + dec_digits(n as nat)],
                None => Seq::<Seq<char>>::empty(),
            }) + (match self@.max_incoming_peers {
                Some(n) => seq!["--maxinpeers="@ + dec_digits(n as nat)],
                None => Seq::<Seq<char>>::empty(),
            }),
    {
        let mut args: Vec<String> = Vec::new();
        match self.network {
            Network::Mainnet => {},
            Network::Testnet10 => {
                args.push(String::from_str("--testnet"));
                args.push(String::from_str("--netsuffix=10"));
            },
            Network::Testnet11 => {
                args.push(String::from_str("--testnet"));
                args.push(String::from_str("--netsuffix=11"));
            },
        }
        proof {
            assert(args@.map_values(|s: String| s@) =~= network_args(self@.network));
        }
        args.push(String::from_str("--yes"));
        args.push(String::from_str("--perf-metrics"));
        args.push(String::from_str("--perf-metrics-interval-sec=1"));
        args.push(String::from_str("--utxoindex"));
        args.push(String::from_str("--loglevel=info,kaspad_lib::daemon=trace "));
        proof {
            assert(args@.map_values(|s: String| s@) =~= network_args(self@.network)
                + fixed_args());
        }
        if !self.enable_upnp {
            args.push(String::from_str("--disable-upnp"));
        }
        if let Some(outgoing_peers) = self.outgoing_peers {
            let mut arg = String::from_str("--outpeers=");
            let digits = crate::text::u16_to_dec(outgoing_peers);
            arg.append(digits.as_str());
            args.push(arg);
        }
        if let Some(max_incoming_peers) = self.max_incoming_peers {
            let mut arg = String::from_str("--maxinpeers=");
            let digits = crate::text::u16_to_dec(max_incoming_peers);
            arg.append(digits.as_str());
            args.push(arg);
        }
        proof {
            assert(args@.map_values(|s: String| s@) =~= network_args(self@.network) + fixed_args()
                + (if !self@.enable_upnp {
                seq!["--disable-upnp"@]
            } else {
                Seq::<Seq<char>>::empty()
            }) + (match self@.outgoing_peers {
                Some(n) => seq!["--outpeers="@ + dec_digits(n as nat)],
                None => Seq::<Seq<char>>::empty(),
            }) + (match self@.max_incoming_peers {
                Some(n) => seq!["--maxinpeers="@ + dec_digits(n as nat)],
                None => Seq::<Seq<char>>::empty(),
            }));
        }
        args
    }

    /// The node's command-line arguments, derived from the configuration.
    #[verifier::rlimit(100)]
    pub fn args(&self) -> (r: Vec<String>)
        ensures
            r@.map_values(|s: String| s@) == node_args(self@),
    {
        let mut args = self.args_prefix();
        if let Some(interface) = &self.grpc {
            let mut arg = String::from_str("--rpclisten=");
            let text = interface.render();
            arg.append(text.as_str());
            args.push(arg);
        }
        if let Some(interface) = &self.wrpc_borsh {
            let mut arg = String::from_str("--rpclisten-borsh=");
            let text = interface.render();
            arg.append(text.as_str());
            args.push(arg);
        }
        if let Some(interface) = &self.wrpc_json {
            let mut arg = String::from_str("--rpclisten-json=");
            let text = interface.render();
            arg.append(text.as_str());
            args.push(arg);
        }
        if let Some(data_folder) = &self.data_folder {
            let mut arg = String::from_str("--appdir=");
            arg.append(data_folder.as_str());
            args.push(arg);
        }
        proof {
            assert(args@.map_values(|s: String| s@) =~= node_args(self@));
        }
        args
    }

    /// The reverse-proxy routes of the instance: one per serving wRPC
    /// interface, upgrade-capable, under `/kaspa/{network}/wrpc/`.
    pub fn proxy_routes(&self) -> (r: Vec<ProxyConfig>)
        ensures
            r@.map_values(|p: ProxyConfig| (p.path@, p.proxy_kind)) == node_routes(self@),
    {
        let mut routes: Vec<ProxyConfig> = Vec::new();
        if let Some(iface) = &self.wrpc_borsh {
            let mut path = String::from_str("/kaspa/");
            path.append(self.network.render());
            path.append("/wrpc/borsh");
            routes.push(ProxyConfig::new(path, ProxyKind::wrpc(iface.port())));
        }
        if let Some(iface) = &self.wrpc_json {
            let mut path = String::from_str("/kaspa/");
            path.append(self.network.render());
            path.append("/wrpc/json");
            routes.push(ProxyConfig::new(path, ProxyKind::wrpc(iface.port())));
        }
        proof {
            assert(routes@.map_values(|p: ProxyConfig| (p.path@, p.proxy_kind)) =~= node_routes(
                self@,
            ));
        }
        routes
    }
}

/// The network-selecting arguments.
pub open spec fn network_args(network: Network) -> Seq<Seq<char>> {
    match network {
        Network::Mainnet => Seq::empty(),
        Network::Testnet10 => seq!["--testnet"@, "--netsuffix=10"@],
        Network::Testnet11 => seq!["--testnet"@, "--netsuffix=11"@],
    }
}

/// The arguments every instance gets.
pub open spec fn fixed_args() -> Seq<Seq<char>> {
    seq![
        "--yes"@,
        "--perf-metrics"@,
        "--perf-metrics-interval-sec=1"@,
        "--utxoindex"@,
        "--loglevel=info,kaspad_lib::daemon=trace "@,
    ]
}

/// The full command-line arguments of a node instance.
pub open spec fn node_args(c: ConfigView) -> Seq<Seq<char>> {
    network_args(c.network) + fixed_args() + (if !c.enable_upnp {
        seq!["--disable-upnp"@]
    } else {
        Seq::empty()
    }) + (match c.outgoing_peers {
        Some(n) => seq!["--outpeers="@ + dec_digits(n as nat)],
        None => Seq::empty(),
    }) + (match c.max_incoming_peers {
        Some(n) => seq!["--maxinpeers="@ + dec_digits(n as nat)],
        None => Seq::empty(),
    }) + (match c.grpc {
        Some(i) => seq!["--rpclisten="@ + interface_text(i)],
        None => Seq::empty(),
    }) + (match c.wrpc_borsh {
        Some(i) => seq!["--rpclisten-borsh="@ + interface_text(i)],
        None => Seq::empty(),
    }) + (match c.wrpc_json {
        Some(i) => seq!["--rpclisten-json="@ + interface_text(i)],
        None => Seq::empty(),
    }) + (match c.data_folder {
        Some(d) => seq!["--appdir="@ + d],
        None => Seq::empty(),
    })
}

/// The reverse-proxy routes of a node instance, as path and kind pairs.
pub open spec fn node_routes(c: ConfigView) -> Seq<(Seq<char>, ProxyKind)> {
    (match c.wrpc_borsh {
        Some(i) => seq![
            (
                "/kaspa/"@ + network_name(c.network) + "/wrpc/borsh"@,
                ProxyKind::Wrpc { port: interface_port(i) },
            ),
        ],
        None => Seq::empty(),
    }) + (match c.wrpc_json {
        Some(i) => seq![
            (
                "/kaspa/"@ + network_name(c.network) + "/wrpc/json"@,
                ProxyKind::Wrpc { port: interface_port(i) },
            ),
        ],
        None => Seq::empty(),
    })
}

/// The port of an interface.
pub open spec fn interface_port(i: Interface) -> u16 {
    match i {
        Interface::Public(port) => port,
        Interface::Local(port) => port,
    }
}

impl Config {
    /// The detail record of the instance.
    pub fn detail(&self) -> (r: ServiceDetail)
        ensures
            r@ == (crate::service::DetailView {
                caption: "Kaspa p2p node"@,
                name: unit_name_text(self.network),
                kind: ServiceKind::Kaspad(self.network),
                origin: Some(self@.origin),
                enabled: self.enabled,
                managed: true,
            }),
    {
        ServiceDetail::new(
            Config::service_title(self),
            Config::service_name(self),
            ServiceKind::Kaspad(self.network),
            Some(self.origin.clone()),
            self.enabled,
            true,
        )
    }
}

impl Service for Config {
    fn service_title(&self) -> String {
        Config::service_title(self)
    }

    fn service_name(&self) -> String {
        Config::service_name(self)
    }

    fn kind(&self) -> ServiceKind {
        ServiceKind::Kaspad(self.network)
    }

    fn origin(&self) -> Option<Origin> {
        Some(self.origin.clone())
    }

    fn enabled(&self) -> bool {
        self.enabled
    }

    fn managed(&self) -> bool {
        true
    }

    fn proxy_config(&self) -> Option<Vec<ProxyConfig>> {
        Some(Config::proxy_routes(self))
    }

    fn service_detail(&self) -> ServiceDetail {
        Config::detail(self)
    }
}

/// The folder holding all node checkouts.
pub fn base_folder(root: &str) -> (r: String)
    ensures
        r@ == root@ + "/rusty-kaspa"@,
{
    let mut out = root.to_owned();
    out.append("/rusty-kaspa");
    out
}

/// The checkout folder of an origin.
pub fn folder(origin: &Origin, root: &str) -> (r: String)
    ensures
        r@ == root@ + "/rusty-kaspa/"@ + origin@.owner + "/"@ + (match origin@.branch {
            Some(b) => b,
            None => "master"@,
        }),
{
    let mut out = base_folder(root);
    out.append("/");
    let sub = origin.folder();
    out.append(sub.as_str());
    proof {
        reveal_strlit("/rusty-kaspa");
        reveal_strlit("/rusty-kaspa/");
        reveal_strlit("/");
        assert(out@ =~= root@ + "/rusty-kaspa/"@ + origin@.owner + "/"@ + (
        match origin@.branch {
            Some(b) => b,
            None => "master"@,
        }));
    }
    out
}

/// The built node binary of an origin.
pub fn binary(origin: &Origin, root: &str) -> (r: String)
    ensures
        r@ == root@ + "/rusty-kaspa/"@ + origin@.owner + "/"@ + (match origin@.branch {
            Some(b) => b,
            None => "master"@,
        }) + "/target/release/kaspad"@,
{
    let mut out = folder(origin, root);
    out.append("/target/release/kaspad");
    proof {
        assert(out@ =~= root@ + "/rusty-kaspa/"@ + origin@.owner + "/"@ + (
        match origin@.branch {
            Some(b) => b,
            None => "master"@,
        }) + "/target/release/kaspad"@);
    }
    out
}

/// The positions of the node configurations whose desired state is
/// enabled, in order.
pub open spec fn enabled_indices(configs: Seq<Config>) -> Seq<usize>
    decreases configs.len(),
{
    if configs.len() == 0 {
        Seq::empty()
    } else {
        enabled_indices(configs.drop_last()) + (if configs.last().enabled {
            seq![(configs.len() - 1) as usize]
        } else {
            Seq::empty()
        })
    }
}

/// The positions of the node configurations whose desired state is
/// disabled, in order.
pub open spec fn disabled_indices(configs: Seq<Config>) -> Seq<usize>
    decreases configs.len(),
{
    if configs.len() == 0 {
        Seq::empty()
    } else {
        disabled_indices(configs.drop_last()) + (if !configs.last().enabled {
            seq![(configs.len() - 1) as usize]
        } else {
            Seq::empty()
        })
    }
}

/// The positions of the enabled node configurations.
pub fn active_configs(ctx: &Context) -> (r: Vec<usize>)
    ensures
        r@ == enabled_indices(ctx.config.kaspad@),
{
    let configs = &ctx.config.kaspad;
    let mut indices: Vec<usize> = Vec::new();
    let mut i: usize = 0;
    proof {
        assert(configs@.take(0) =~= Seq::<Config>::empty());
        assert(indices@ =~= enabled_indices(configs@.take(0)));
    }
    while i < configs.len()
        invariant
            i <= configs@.len(),
            configs@ == ctx.config.kaspad@,
            indices@ =~= enabled_indices(configs@.take(i as int)),
        decreases configs@.len() - i,
    {
        if configs[i].enabled {
            indices.push(i);
        }
        proof {
            assert(configs@.take(i as int + 1).drop_last() =~= configs@.take(i as int));
            assert(configs@.take(i as int + 1).last() == configs@[i as int]);
            assert(indices@ =~= enabled_indices(configs@.take(i as int + 1)));
        }
        i = i + 1;
    }
    proof {
        assert(configs@.take(configs@.len() as int) =~= configs@);
    }
    indices
}

/// The positions of the disabled node configurations.
pub fn inactive_configs(ctx: &Context) -> (r: Vec<usize>)
    ensures
        r@ == disabled_indices(ctx.config.kaspad@),
{
    let configs = &ctx.config.kaspad;
    let mut indices: Vec<usize> = Vec::new();
    let mut i: usize = 0;
    proof {
        assert(configs@.take(0) =~= Seq::<Config>::empty());
        assert(indices@ =~= disabled_indices(configs@.take(0)));
    }
    while i < configs.len()
        invariant
            i <= configs@.len(),
            configs@ == ctx.config.kaspad@,
            indices@ =~= disabled_indices(configs@.take(i as int)),
        decreases configs@.len() - i,
    {
        if !configs[i].enabled {
            indices.push(i);
        }
        proof {
            assert(configs@.take(i as int + 1).drop_last() =~= configs@.take(i as int));
            assert(configs@.take(i as int + 1).last() == configs@[i as int]);
            assert(indices@ =~= disabled_indices(configs@.take(i as int + 1)));
        }
        i = i + 1;
    }
    proof {
        assert(configs@.take(configs@.len() as int) =~= configs@);
    }
    indices
}

/// Whether `origins` holds, without repetition, exactly the origins that
/// occur among the node configurations.
pub open spec fn distinct_origins_of(origins: Seq<Origin>, configs: Seq<Config>) -> bool {
    &&& forall|a: int, b: int| 0 <= a < b < origins.len() ==> origins[a]@ != origins[b]@
    &&& forall|k: int|
        0 <= k < configs.len() ==> exists|m: int|
            0 <= m < origins.len() && origins[m]@ == #[trigger] configs[k]@.origin
    &&& forall|m: int|
        0 <= m < origins.len() ==> exists|k: int|
            0 <= k < configs.len() && (#[trigger] origins[m])@ == configs[k]@.origin
}

/// The distinct origins of all node configurations, first occurrence
/// first.
pub fn unique_origins(ctx: &Context) -> (r: Vec<Origin>)
    ensures
        distinct_origins_of(r@, ctx.config.kaspad@),
{
    let configs = &ctx.config.kaspad;
    let mut origins: Vec<Origin> = Vec::new();
    let mut i: usize = 0;
    while i < configs.len()
        invariant
            i <= configs@.len(),
            configs@ == ctx.config.kaspad@,
            forall|a: int, b: int| 0 <= a < b < origins@.len() ==> origins@[a]@ != origins@[b]@,
            forall|k: int|
                0 <= k < i ==> exists|m: int|
                    0 <= m < origins@.len() && origins@[m]@ == #[trigger] configs@[k]@.origin,
            forall|m: int|
                0 <= m < origins@.len() ==> exists|k: int|
                    0 <= k < configs@.len() && (#[trigger] origins@[m])@ == configs@[k]@.origin,
        decreases configs@.len() - i,
    {
        let candidate = &configs[i].origin;
        let mut found = false;
        let mut m: usize = 0;
        while m < origins.len()
            invariant
                m <= origins@.len(),
                found ==> exists|w: int| 0 <= w < origins@.len() && origins@[w]@ == candidate@,
                !found ==> forall|w: int| 0 <= w < m ==> origins@[w]@ != candidate@,
            decreases origins@.len() - m,
        {
            if origins[m].same(candidate) {
                found = true;
            }
            m = m + 1;
        }
        let ghost old_origins = origins@;
        if !found {
            origins.push(candidate.clone());
        }
        proof {
            assert(forall|w: int| 0 <= w < old_origins.len() ==> origins@[w] == old_origins[w]);
            if !found {
                assert(origins@.last()@ == candidate@);
            }
            assert forall|k: int| 0 <= k < i + 1 implies exists|m: int|
                0 <= m < origins@.len() && origins@[m]@ == #[trigger] configs@[k]@.origin by {
                if k < i {
                    let m = choose|m: int|
                        0 <= m < old_origins.len() && old_origins[m]@ == configs@[k]@.origin;
                    assert(origins@[m]@ == configs@[k]@.origin);
                } else {
                    if found {
                        let w = choose|w: int|
                            0 <= w < old_origins.len() && old_origins[w]@ == candidate@;
                        assert(origins@[w]@ == configs@[k]@.origin);
                    } else {
                        assert(origins@[origins@.len() - 1]@ == configs@[k]@.origin);
                    }
                }
            }
            assert forall|m: int| 0 <= m < origins@.len() implies exists|k: int|
                0 <= k < configs@.len() && (#[trigger] origins@[m])@ == configs@[k]@.origin by {
                if m < old_origins.len() {
                    let k = choose|k: int|
                        0 <= k < configs@.len() && old_origins[m]@ == configs@[k]@.origin;
                    assert(origins@[m]@ == configs@[k]@.origin);
                } else {
                    assert(origins@[m]@ == configs@[i as int]@.origin);
                }
            }
        }
        i = i + 1;
    }
    proof {
        let cs = ctx.config.kaspad@;
        assert forall|k: int| 0 <= k < cs.len() implies exists|m: int|
            0 <= m < origins@.len() && origins@[m]@ == #[trigger] cs[k]@.origin by {
            assert(exists|m: int|
                0 <= m < origins@.len() && origins@[m]@ == #[trigger] configs@[k]@.origin);
            let m = choose|m: int|
                0 <= m < origins@.len() && origins@[m]@ == #[trigger] configs@[k]@.origin;
            assert(origins@[m]@ == cs[k]@.origin);
        }
        assert forall|m: int| 0 <= m < origins@.len() implies exists|k: int|
            0 <= k < cs.len() && (#[trigger] origins@[m])@ == cs[k]@.origin by {
            assert(exists|k: int|
                0 <= k < configs@.len() && (origins@[m])@ == #[trigger] configs@[k]@.origin);
            let k = choose|k: int|
                0 <= k < configs@.len() && (origins@[m])@ == #[trigger] configs@[k]@.origin;
            assert((origins@[m])@ == cs[k]@.origin);
        }
        assert(distinct_origins_of(origins@, cs));
    }
    origins
}

/// The reconciliation entries of the node configurations beside their
/// observed unit states.
pub open spec fn node_entries(configs: Seq<Config>, observed: Seq<ObservedUnit>) -> Seq<
    ReconcileEntry,
> {
    Seq::new(
        configs.len(),
        |i: int|
            ReconcileEntry { enabled: configs[i].enabled, node_instance: true, observed: observed[i] },
    )
}

/// Plans the node side of reconciliation: teardown of disabled instances,
/// unit writes, one batched reload and startup of enabled ones.
pub fn reconfigure(ctx: &Context, observed: &Vec<ObservedUnit>, force: bool) -> (r: Vec<Step>)
    requires
        observed@.len() == ctx.config.kaspad@.len(),
    ensures
        r@ == plan_spec(node_entries(ctx.config.kaspad@, observed@), force, false),
{
    let configs = &ctx.config.kaspad;
    let mut entries: Vec<ReconcileEntry> = Vec::new();
    let mut i: usize = 0;
    while i < configs.len()
        invariant
            i <= configs@.len(),
            configs@ == ctx.config.kaspad@,
            observed@.len() == configs@.len(),
            entries@ =~= node_entries(configs@, observed@).take(i as int),
        decreases configs@.len() - i,
    {
        entries.push(
            ReconcileEntry {
                enabled: configs[i].enabled,
                node_instance: true,
                observed: observed[i],
            },
        );
        proof {
            assert(entries@ =~= node_entries(configs@, observed@).take(i as int + 1));
        }
        i = i + 1;
    }
    proof {
        assert(entries@ =~= node_entries(configs@, observed@));
    }
    crate::reconcile::plan(&entries, force, false)
}

/// The entries that drive a full node teardown: every instance desired
/// absent, with only the currently enabled ones still observed.
pub open spec fn teardown_entries(configs: Seq<Config>, observed: Seq<ObservedUnit>) -> Seq<
    ReconcileEntry,
> {
    Seq::new(
        configs.len(),
        |i: int|
            ReconcileEntry {
                enabled: false,
                node_instance: true,
                observed: if configs[i].enabled {
                    observed[i]
                } else {
                    ObservedUnit { exists: false, enabled: false, active: false }
                },
            },
    )
}

/// Plans the removal of every enabled instance's unit: stop, disable and
/// delete each, leaving units of already-disabled instances alone.
pub fn uninstall(ctx: &Context, observed: &Vec<ObservedUnit>) -> (r: Vec<Step>)
    requires
        observed@.len() == ctx.config.kaspad@.len(),
    ensures
        r@ == plan_spec(teardown_entries(ctx.config.kaspad@, observed@), false, false),
{
    let configs = &ctx.config.kaspad;
    let mut entries: Vec<ReconcileEntry> = Vec::new();
    let mut i: usize = 0;
    while i < configs.len()
        invariant
            i <= configs@.len(),
            configs@ == ctx.config.kaspad@,
            observed@.len() == configs@.len(),
            entries@ =~= teardown_entries(configs@, observed@).take(i as int),
        decreases configs@.len() - i,
    {
        let unit_observed = if configs[i].enabled {
            observed[i]
        } else {
            ObservedUnit { exists: false, enabled: false, active: false }
        };
        entries.push(ReconcileEntry { enabled: false, node_instance: true, observed: unit_observed });
        proof {
            assert(entries@ =~= teardown_entries(configs@, observed@).take(i as int + 1));
        }
        i = i + 1;
    }
    proof {
        assert(entries@ =~= teardown_entries(configs@, observed@));
    }
    crate::reconcile::plan(&entries, false, false)
}

/// The unit names of the enabled instances, in order.
pub open spec fn enabled_names(configs: Seq<Config>) -> Seq<Seq<char>>
    decreases configs.len(),
{
    if configs.len() == 0 {
        Seq::empty()
    } else {
        enabled_names(configs.drop_last()) + (if configs.last().enabled {
            seq![unit_name_text(configs.last().network)]
        } else {
            Seq::empty()
        })
    }
}

/// The unit names of the enabled instances, for stopping them all.
pub fn stop_all(ctx: &Context) -> (r: Vec<String>)
    ensures
        r@.map_values(|s: String| s@) == enabled_names(ctx.config.kaspad@),
{
    enabled_unit_names(ctx)
}

/// The unit names of the enabled instances, for starting them all.
pub fn start_all(ctx: &Context) -> (r: Vec<String>)
    ensures
        r@.map_values(|s: String| s@) == enabled_names(ctx.config.kaspad@),
{
    enabled_unit_names(ctx)
}

/// The unit names of the enabled instances, for restarting them all.
pub fn restart_all(ctx: &Context) -> (r: Vec<String>)
    ensures
        r@.map_values(|s: String| s@) == enabled_names(ctx.config.kaspad@),
{
    enabled_unit_names(ctx)
}

fn enabled_unit_names(ctx: &Context) -> (r: Vec<String>)
    ensures
        r@.map_values(|s: String| s@) == enabled_names(ctx.config.kaspad@),
{
    let configs = &ctx.config.kaspad;
    let mut names: Vec<String> = Vec::new();
    let mut i: usize = 0;
    proof {
        assert(configs@.take(0) =~= Seq::<Config>::empty());
        assert(names@.map_values(|s: String| s@) =~= enabled_names(configs@.take(0)));
    }
    while i < configs.len()
        invariant
            i <= configs@.len(),
            configs@ == ctx.config.kaspad@,
            names@.map_values(|s: String| s@) =~= enabled_names(configs@.take(i as int)),
        decreases configs@.len() - i,
    {
        if configs[i].enabled {
            names.push(configs[i].service_name());
        }
        proof {
            assert(configs@.take(i as int + 1).drop_last() =~= configs@.take(i as int));
            assert(configs@.take(i as int + 1).last() == configs@[i as int]);
            assert(names@.map_values(|s: String| s@) =~= enabled_names(configs@.take(i as int + 1)));
        }
        i = i + 1;
    }
    proof {
        assert(configs@.take(configs@.len() as int) =~= configs@);
    }
    names
}

/// The position of the instance on the given network, when there is one.
pub fn find_config_by_network(ctx: &Context, network: Network) -> (r: Option<usize>)
    ensures
        (match r {
            Some(i) => 0 <= i < ctx.config.kaspad@.len() && ctx.config.kaspad@[i as int].network
                == network && forall|k: int|
                0 <= k < i ==> ctx.config.kaspad@[k].network != network,
            None => forall|k: int|
                0 <= k < ctx.config.kaspad@.len() ==> ctx.config.kaspad@[k].network != network,
        }),
{
    let configs = &ctx.config.kaspad;
    let mut i: usize = 0;
    while i < configs.len()
        invariant
            i <= configs@.len(),
            configs@ == ctx.config.kaspad@,
            forall|k: int| 0 <= k < i ==> configs@[k].network != network,
        decreases configs@.len() - i,
    {
        if configs[i].network == network {
            return Some(i);
        }
        i = i + 1;
    }
    None
}

/// The position of the instance whose unit name matches the detail, when
/// there is one.
pub fn find_config_by_service_detail(ctx: &Context, detail: &ServiceDetail) -> (r: Option<usize>)
    ensures
        (match r {
            Some(i) => 0 <= i < ctx.config.kaspad@.len() && unit_name_text(
                ctx.config.kaspad@[i as int].network,
            ) == detail@.name && forall|k: int|
                0 <= k < i ==> unit_name_text(ctx.config.kaspad@[k].network) != detail@.name,
            None => forall|k: int|
                0 <= k < ctx.config.kaspad@.len() ==> unit_name_text(ctx.config.kaspad@[k].network)
                    != detail@.name,
        }),
{
    let configs = &ctx.config.kaspad;
    let mut i: usize = 0;
    while i < configs.len()
        invariant
            i <= configs@.len(),
            configs@ == ctx.config.kaspad@,
            forall|k: int|
                0 <= k < i ==> unit_name_text(configs@[k].network) != detail@.name,
        decreases configs@.len() - i,
    {
        let name = configs[i].service_name();
        if crate::text::str_eq(name.as_str(), detail.name.as_str()) {
            return Some(i);
        }
        i = i + 1;
    }
    None
}

/// Whether two revision hashes differ, meaning an update is available.
pub fn update_available(current: &str, latest: &str) -> (r: bool)
    ensures
        r == (current@ != latest@),
{
    !crate::text::str_eq(current, latest)
}

/// Whether the host has memory for the requested number of node-network
/// instances without an operator override.
pub fn supports_multiple_networks(ctx: &Context, instances: usize) -> (r: bool)
    ensures
        r == (instances <= 1 || crate::reconcile::ram_gb(ctx.system.total_memory)
            >= crate::reconcile::MULTI_INSTANCE_MIN_GB),
{
    crate::reconcile::supports_multiple_networks(ctx.system.total_memory, instances)
}

/// The unit definition for one node instance: its binary and derived
/// arguments, run as the operator's account, restarting after five
/// seconds.
pub fn create_systemd_unit(ctx: &Context, config: &Config) -> (r: crate::systemd::Config)
    ensures
        r.service@ == unit_name_text(config.network),
        r.description@ == "Kaspad p2p Node ("@ + network_name(config.network) + ")"@,
        r.user@ == ctx.username@,
        r.exec_start@ == joined(
            seq![
                ctx.home@ + "/kaspa/rusty-kaspa/"@ + config@.origin.owner + "/"@ + (
                match config@.origin.branch {
                    Some(b) => b,
                    None => "master"@,
                }) + "/target/release/kaspad"@,
            ] + node_args(config@),
            " "@,
        ),
        r.restart_secs == 5,
{
    let mut description = String::from_str("Kaspad p2p Node (");
    description.append(config.network.render());
    description.append(")");
    let root = crate::folders::root_folder(ctx.home.as_str());
    let bin = binary(&config.origin, root.as_str());
    let mut exec_start: Vec<String> = Vec::new();
    exec_start.push(bin);
    let mut args = config.args();
    let ghost arg_views = args@.map_values(|s: String| s@);
    exec_start.append(&mut args);
    proof {
        reveal_strlit("/kaspa");
        reveal_strlit("/rusty-kaspa/");
        reveal_strlit("/kaspa/rusty-kaspa/");
        let views = exec_start@.map_values(|s: String| s@);
        assert(views[0] =~= ctx.home@ + "/kaspa/rusty-kaspa/"@ + config@.origin.owner + "/"@ + (
        match config@.origin.branch {
            Some(b) => b,
            None => "master"@,
        }) + "/target/release/kaspad"@);
        assert(views =~= seq![
            ctx.home@ + "/kaspa/rusty-kaspa/"@ + config@.origin.owner + "/"@ + (
            match config@.origin.branch {
                Some(b) => b,
                None => "master"@,
            }) + "/target/release/kaspad"@,
        ] + node_args(config@));
    }
    crate::systemd::Config::new(
        config.service_name(),
        description,
        ctx.username.clone(),
        exec_start,
        5,
    )
}

/// How many distinct networks a selection names.
pub open spec fn distinct_network_count(networks: Seq<Network>) -> nat {
    (if networks.contains(Network::Mainnet) {
        1nat
    } else {
        0nat
    }) + (if networks.contains(Network::Testnet10) {
        1nat
    } else {
        0nat
    }) + (if networks.contains(Network::Testnet11) {
        1nat
    } else {
        0nat
    })
}

fn contains_network(networks: &Vec<Network>, network: Network) -> (r: bool)
    ensures
        r == networks@.contains(network),
{
    let mut i: usize = 0;
    while i < networks.len()
        invariant
            i <= networks@.len(),
            forall|k: int| 0 <= k < i ==> networks@[k] != network,
        decreases networks@.len() - i,
    {
        if networks[i] == network {
            return true;
        }
        i = i + 1;
    }
    false
}

/// Applies a network selection to the desired state. When several distinct
/// networks are requested on a host below the memory floor and the
/// operator has not confirmed, nothing changes and `false` is returned;
/// otherwise each instance's enabled flag follows the selection.
pub fn configure_networks(ctx: &mut Context, networks: &Vec<Network>, confirmed: bool) -> (applied:
    bool)
    ensures
        applied == !(distinct_network_count(networks@) > 1 && crate::reconcile::ram_gb(
            old(ctx).system.total_memory,
        ) < crate::reconcile::MULTI_INSTANCE_MIN_GB && !confirmed),
        !applied ==> *final(ctx) == *old(ctx),
        applied ==> {
            &&& final(ctx).config.kaspad@.len() == old(ctx).config.kaspad@.len()
            &&& forall|i: int|
                0 <= i < old(ctx).config.kaspad@.len() ==> (#[trigger] final(ctx).config.kaspad@[i])@ == (ConfigView {
                    enabled: networks@.contains(old(ctx).config.kaspad@[i].network),
                    ..old(ctx).config.kaspad@[i]@
                })
            &&& final(ctx).config.version == old(ctx).config.version
            &&& final(ctx).config.bootstrap == old(ctx).config.bootstrap
            &&& final(ctx).config.disable_sudo_prompt == old(ctx).config.disable_sudo_prompt
            &&& final(ctx).config.public == old(ctx).config.public
            &&& final(ctx).config.fqdn == old(ctx).config.fqdn
            &&& final(ctx).config.ip == old(ctx).config.ip
            &&& final(ctx).config.nginx == old(ctx).config.nginx
            &&& final(ctx).config.resolver == old(ctx).config.resolver
            &&& final(ctx).args == old(ctx).args
            &&& final(ctx).system == old(ctx).system
            &&& final(ctx).username == old(ctx).username
            &&& final(ctx).home == old(ctx).home
        },
{
    let mut distinct: usize = 0;
    if contains_network(networks, Network::Mainnet) {
        distinct = distinct + 1;
    }
    if contains_network(networks, Network::Testnet10) {
        distinct = distinct + 1;
    }
    if contains_network(networks, Network::Testnet11) {
        distinct = distinct + 1;
    }
    assert(distinct == distinct_network_count(networks@));
    if distinct > 1 && ctx.system.total_memory / 0x40000000
        < crate::reconcile::MULTI_INSTANCE_MIN_GB && !confirmed {
        return false;
    }
    let mut i: usize = 0;
    while i < ctx.config.kaspad.len()
        invariant
            i <= ctx.config.kaspad@.len(),
            ctx.config.kaspad@.len() == old(ctx).config.kaspad@.len(),
            forall|k: int|
                i <= k < ctx.config.kaspad@.len() ==> #[trigger] ctx.config.kaspad@[k]
                    == old(ctx).config.kaspad@[k],
            forall|k: int|
                0 <= k < i ==> (#[trigger] ctx.config.kaspad@[k])@ == (ConfigView {
                    enabled: networks@.contains(old(ctx).config.kaspad@[k].network),
                    ..old(ctx).config.kaspad@[k]@
                }),
            ctx.config.version == old(ctx).config.version,
            ctx.config.bootstrap == old(ctx).config.bootstrap,
            ctx.config.disable_sudo_prompt == old(ctx).config.disable_sudo_prompt,
            ctx.config.public == old(ctx).config.public,
            ctx.config.fqdn == old(ctx).config.fqdn,
            ctx.config.ip == old(ctx).config.ip,
            ctx.config.nginx == old(ctx).config.nginx,
            ctx.config.resolver == old(ctx).config.resolver,
            ctx.args == old(ctx).args,
            ctx.system == old(ctx).system,
            ctx.username == old(ctx).username,
            ctx.home == old(ctx).home,
        decreases ctx.config.kaspad@.len() - i,
    {
        let mut updated = ctx.config.kaspad[i].clone();
        let wanted = contains_network(networks, updated.network);
        updated.enabled = wanted;
        ctx.config.kaspad.set(i, updated);
        i = i + 1;
    }
    true
}

} // verus!
