//! The persisted desired-state configuration: the single source of truth
//! for what the operator wants running. Reading and writing the
//! configuration file is the surrounding program's job; the default
//! content and the schema migration are verified here.

use vstd::prelude::*;
use crate::git::{parsed_origin, repo_wellformed, Origin, OriginView};
use crate::kaspad;
use crate::network::{Interface, Network};
use crate::nginx;
use crate::resolver;
use crate::error::Result;

verus! {

/// The current schema version of the persisted configuration.
pub const CONFIG_VERSION: u64 = 2;

/// The default resolver repository URL.
pub fn resolver_repo() -> (r: &'static str)
    ensures
        r@ == "https://github.com/aspectron/kaspa-resolver"@,
{
    "https://github.com/aspectron/kaspa-resolver"
}

/// The default node repository URL.
pub fn node_repo() -> (r: &'static str)
    ensures
        r@ == "https://github.com/aspectron/rusty-kaspa"@,
{
    "https://github.com/aspectron/rusty-kaspa"
}

/// The default node instance for position `i` of the network list.
pub open spec fn default_node_view(i: int) -> kaspad::ConfigView {
    let networks = seq![Network::Mainnet, Network::Testnet10, Network::Testnet11];
    let ports = kaspad::default_ports(networks[i]);
    kaspad::ConfigView {
        enabled: false,
        certs: None,
        origin: parsed_origin("https://github.com/aspectron/rusty-kaspa"@, Some("pnn-v1"@)),
        network: networks[i],
        data_folder: None,
        enable_upnp: false,
        outgoing_peers: Some(32u16),
        max_incoming_peers: Some(256u16),
        grpc: Some(Interface::Local(ports.0)),
        wrpc_borsh: Some(Interface::Local(ports.1)),
        wrpc_json: Some(Interface::Local(ports.2)),
    }
}

/// The whole persisted desired state.
#[derive(Debug)]
pub struct Config {
    pub version: u64,
    /// Whether first-time installation has completed.
    pub bootstrap: bool,
    pub disable_sudo_prompt: bool,
    /// Whether this node joins the publicly reachable node network.
    pub public: bool,
    pub fqdn: Option<Vec<String>>,
    pub ip: Option<String>,
    pub nginx: nginx::Settings,
    pub kaspad: Vec<kaspad::Config>,
    pub resolver: resolver::Config,
}

impl Config {
    /// The default configuration: schema version current, bootstrap
    /// pending, public participation on, a disabled resolver on loopback
    /// port 8989, and one disabled node instance per network from the
    /// default branch. Fails exactly when a default repository URL does
    /// not parse.
    pub fn try_new() -> (r: Result<Config>)
        ensures
            r is Ok <==> (repo_wellformed("https://github.com/aspectron/kaspa-resolver"@)
                && repo_wellformed("https://github.com/aspectron/rusty-kaspa"@)),
            r is Ok ==> ({
                let c = r->Ok_0;
                &&& c.version == CONFIG_VERSION
                &&& c.bootstrap == false
                &&& c.disable_sudo_prompt == false
                &&& c.public == true
                &&& c.fqdn is None
                &&& c.ip is None
                &&& c.nginx.certs is None
                &&& c.resolver@ == (resolver::ResolverView {
                    enabled: false,
                    kind: None,
                    certs: None,
                    origin: parsed_origin(
                        "https://github.com/aspectron/kaspa-resolver"@,
                        None,
                    ),
                    sync: false,
                    stats: true,
                    http: Some(Interface::Local(8989u16)),
                })
                &&& c.kaspad@.len() == 3
                &&& forall|i: int| 0 <= i < 3 ==> (#[trigger] c.kaspad@[i])@ == default_node_view(i)
            }),
    {
        let resolver_origin = match Origin::try_new(resolver_repo(), None) {
            Ok(o) => o,
            Err(e) => {
                return Err(e);
            },
        };
        let node_origin = match Origin::try_new(node_repo(), Some("pnn-v1")) {
            Ok(o) => o,
            Err(e) => {
                return Err(e);
            },
        };
        let resolver_config = resolver::Config::new(resolver_origin).with_stats()
            .with_local_interface(8989);
        let networks = Network::all();
        let mut node_configs: Vec<kaspad::Config> = Vec::new();
        let mut i: usize = 0;
        while i < networks.len()
            invariant
                i <= networks@.len(),
                networks@ == seq![Network::Mainnet, Network::Testnet10, Network::Testnet11],
                node_origin@ == parsed_origin(
                    "https://github.com/aspectron/rusty-kaspa"@,
                    Some("pnn-v1"@),
                ),
                node_configs@.len() == i,
                forall|k: int|
                    0 <= k < i ==> (#[trigger] node_configs@[k])@ == (kaspad::ConfigView {
                        enabled: false,
                        certs: None,
                        origin: parsed_origin(
                            "https://github.com/aspectron/rusty-kaspa"@,
                            Some("pnn-v1"@),
                        ),
                        network: networks@[k],
                        data_folder: None,
                        enable_upnp: false,
                        outgoing_peers: Some(32u16),
                        max_incoming_peers: Some(256u16),
                        grpc: Some(Interface::Local(kaspad::default_ports(networks@[k]).0)),
                        wrpc_borsh: Some(Interface::Local(kaspad::default_ports(networks@[k]).1)),
                        wrpc_json: Some(Interface::Local(kaspad::default_ports(networks@[k]).2)),
                    }),
            decreases networks@.len() - i,
        {
            let network = networks[i];
            node_configs.push(kaspad::Config::new(node_origin.clone(), network));
            i = i + 1;
        }
        Ok(
            Config {
                version: CONFIG_VERSION,
                bootstrap: false,
                disable_sudo_prompt: false,
                public: true,
                fqdn: None,
                ip: None,
                nginx: nginx::Settings::default(),
                kaspad: node_configs,
                resolver: resolver_config,
            },
        )
    }
}

/// A branch name after the one-time migration: the superseded default
/// branch is renamed, everything else is kept.
pub open spec fn migrated_branch(branch: Option<Seq<char>>) -> Option<Seq<char>> {
    match branch {
        Some(b) => if b == "omega"@ {
            Some("pnn-v1"@)
        } else {
            Some(b)
        },
        None => None,
    }
}

impl Config {
    /// Runs the one-time schema migration: on configurations older than
    /// schema version one, node instances still tracking the superseded
    /// default branch are moved to the current one. Returns whether
    /// anything changed, so the caller can rewrite the file.
    pub fn migrate(&mut self) -> (changed: bool)
        ensures
            changed == (old(self).version < 1 && exists|i: int|
                0 <= i < old(self).kaspad@.len() && (#[trigger] old(self).kaspad@[i])@.origin.branch
                    == Some("omega"@)),
            final(self).kaspad@.len() == old(self).kaspad@.len(),
            forall|i: int|
                0 <= i < old(self).kaspad@.len() ==> (#[trigger] final(self).kaspad@[i])@ == (
                kaspad::ConfigView {
                    origin: (OriginView {
                        branch: if old(self).version < 1 {
                            migrated_branch(old(self).kaspad@[i]@.origin.branch)
                        } else {
                            old(self).kaspad@[i]@.origin.branch
                        },
                        ..old(self).kaspad@[i]@.origin
                    }),
                    ..old(self).kaspad@[i]@
                }),
            final(self).version == old(self).version,
            final(self).bootstrap == old(self).bootstrap,
            final(self).disable_sudo_prompt == old(self).disable_sudo_prompt,
            final(self).public == old(self).public,
            final(self).fqdn == old(self).fqdn,
            final(self).ip == old(self).ip,
            final(self).nginx == old(self).nginx,
            final(self).resolver == old(self).resolver,
    {
        let mut changed = false;
        if self.version >= 1 {
            proof {
                assert(forall|i: int|
                    0 <= i < self.kaspad@.len() ==> (#[trigger] self.kaspad@[i])@ == (
                    kaspad::ConfigView {
                        origin: (OriginView {
                            branch: self.kaspad@[i]@.origin.branch,
                            ..self.kaspad@[i]@.origin
                        }),
                        ..self.kaspad@[i]@
                    }));
            }
            return false;
        }
        let mut i: usize = 0;
        while i < self.kaspad.len()
            invariant
                i <= self.kaspad@.len(),
                old(self).version < 1,
                self.kaspad@.len() == old(self).kaspad@.len(),
                changed == exists|k: int|
                    0 <= k < i && (#[trigger] old(self).kaspad@[k])@.origin.branch == Some(
                        "omega"@,
                    ),
                forall|k: int|
                    i <= k < self.kaspad@.len() ==> #[trigger] self.kaspad@[k] == old(
                        self,
                    ).kaspad@[k],
                forall|k: int|
                    0 <= k < i ==> (#[trigger] self.kaspad@[k])@ == (kaspad::ConfigView {
                        origin: (OriginView {
                            branch: migrated_branch(old(self).kaspad@[k]@.origin.branch),
                            ..old(self).kaspad@[k]@.origin
                        }),
                        ..old(self).kaspad@[k]@
                    }),
                self.version == old(self).version,
                self.bootstrap == old(self).bootstrap,
                self.disable_sudo_prompt == old(self).disable_sudo_prompt,
                self.public == old(self).public,
                self.fqdn == old(self).fqdn,
                self.ip == old(self).ip,
                self.nginx == old(self).nginx,
                self.resolver == old(self).resolver,
            decreases self.kaspad@.len() - i,
        {
            let ghost prev_changed = changed;
            let mut updated = self.kaspad[i].clone();
            let is_omega = match updated.origin.branch() {
                Some(b) => crate::text::str_eq(b.as_str(), "omega"),
                None => false,
            };
            if is_omega {
                updated.origin.set_branch(Some(String::from_str("pnn-v1")));
                changed = true;
            }
            self.kaspad.set(i, updated);
            proof {
                if is_omega {
                    assert(old(self).kaspad@[i as int]@.origin.branch == Some("omega"@));
                } else {
                    if changed {
                        let w = choose|k: int|
                            0 <= k < i && (#[trigger] old(self).kaspad@[k])@.origin.branch == Some(
                                "omega"@,
                            );
                        assert(0 <= w < i + 1);
                    }
                }
            }
            i = i + 1;
        }
        changed
    }
}

} // verus!
