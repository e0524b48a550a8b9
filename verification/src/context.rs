//! The tool's working context: options, host facts, the operator's
//! account and home folder, and the persisted desired state, with the
//! derived service and route lists.

use vstd::prelude::*;
use crate::args::Args;
use crate::config::Config;
use crate::kaspad;
use crate::nginx::{Certs, ProxyConfig, ProxyKind, ServerKind};
use crate::reconcile::{ObservedUnit, ReconcileEntry};
use crate::resolver;
use crate::service::{DetailView, ServiceDetail, ServiceKind};
use crate::system::System;

verus! {

/// Everything an operation needs: explicit state instead of process-wide
/// globals.
#[derive(Debug)]
pub struct Context {
    pub args: Args,
    pub system: System,
    pub username: String,
    pub home: String,
    pub config: Config,
}

/// The detail view of one node instance.
pub open spec fn kaspad_detail_view(c: kaspad::Config) -> DetailView {
    DetailView {
        caption: "Kaspa p2p node"@,
        name: kaspad::unit_name_text(c.network),
        kind: ServiceKind::Kaspad(c.network),
        origin: Some(c@.origin),
        enabled: c.enabled,
        managed: true,
    }
}

/// The detail view of the resolver.
pub open spec fn resolver_detail_view(c: resolver::Config) -> DetailView {
    DetailView {
        caption: "Kaspa RPC resolver"@,
        name: "kaspa-resolver"@,
        kind: ServiceKind::Resolver,
        origin: Some(c@.origin),
        enabled: c.enabled,
        managed: true,
    }
}

/// The detail view of the reverse proxy: always considered enabled, not
/// managed as a unit by this tool.
pub open spec fn nginx_detail_view() -> DetailView {
    DetailView {
        caption: "Nginx"@,
        name: "nginx"@,
        kind: ServiceKind::Nginx,
        origin: None,
        enabled: true,
        managed: false,
    }
}

/// The detail views of the node instances, in order.
pub open spec fn kaspad_detail_views(configs: Seq<kaspad::Config>) -> Seq<DetailView>
    decreases configs.len(),
{
    if configs.len() == 0 {
        Seq::empty()
    } else {
        kaspad_detail_views(configs.drop_last()) + seq![kaspad_detail_view(configs.last())]
    }
}

/// The detail views of every service: each node instance, the resolver,
/// the reverse proxy.
pub open spec fn services_views(c: Config) -> Seq<DetailView> {
    kaspad_detail_views(c.kaspad@) + seq![resolver_detail_view(c.resolver), nginx_detail_view()]
}

/// The details with the enabled flag set.
pub open spec fn enabled_views(views: Seq<DetailView>) -> Seq<DetailView>
    decreases views.len(),
{
    if views.len() == 0 {
        Seq::empty()
    } else {
        enabled_views(views.drop_last()) + (if views.last().enabled {
            seq![views.last()]
        } else {
            Seq::empty()
        })
    }
}

/// The details with the managed flag set.
pub open spec fn managed_views(views: Seq<DetailView>) -> Seq<DetailView>
    decreases views.len(),
{
    if views.len() == 0 {
        Seq::empty()
    } else {
        managed_views(views.drop_last()) + (if views.last().managed {
            seq![views.last()]
        } else {
            Seq::empty()
        })
    }
}

/// The details with both flags set.
pub open spec fn managed_enabled_views(views: Seq<DetailView>) -> Seq<DetailView>
    decreases views.len(),
{
    if views.len() == 0 {
        Seq::empty()
    } else {
        managed_enabled_views(views.drop_last()) + (if views.last().enabled
            && views.last().managed {
            seq![views.last()]
        } else {
            Seq::empty()
        })
    }
}

/// The reverse-proxy routes of every node instance, in order.
pub open spec fn all_node_routes(configs: Seq<kaspad::Config>) -> Seq<(Seq<char>, ProxyKind)>
    decreases configs.len(),
{
    if configs.len() == 0 {
        Seq::empty()
    } else {
        all_node_routes(configs.drop_last()) + kaspad::node_routes(configs.last()@)
    }
}

/// The aggregated route list: every node route, then the resolver's root
/// route.
pub open spec fn all_routes(c: Config) -> Seq<(Seq<char>, ProxyKind)> {
    all_node_routes(c.kaspad@) + seq![("/"@, ProxyKind::Http { port: 8989u16 })]
}

impl Context {
    /// The detail records of every service.
    pub fn services(&self) -> (r: Vec<ServiceDetail>)
        ensures
            r@.map_values(|d: ServiceDetail| d@) == services_views(self.config),
    {
        let mut details: Vec<ServiceDetail> = Vec::new();
        let configs = &self.config.kaspad;
        let mut i: usize = 0;
        proof {
            assert(configs@.take(0) =~= Seq::<kaspad::Config>::empty());
            assert(details@.map_values(|d: ServiceDetail| d@) =~= kaspad_detail_views(
                configs@.take(0),
            ));
        }
        while i < configs.len()
            invariant
                i <= configs@.len(),
                configs@ == self.config.kaspad@,
                details@.map_values(|d: ServiceDetail| d@) =~= kaspad_detail_views(
                    configs@.take(i as int),
                ),
            decreases configs@.len() - i,
        {
            details.push(configs[i].detail());
            proof {
                assert(configs@.take(i as int + 1).drop_last() =~= configs@.take(i as int));
                assert(configs@.take(i as int + 1).last() == configs@[i as int]);
                assert(details@.map_values(|d: ServiceDetail| d@) =~~= kaspad_detail_views(
                    configs@.take(i as int + 1),
                ));
            }
            i = i + 1;
        }
        proof {
            assert(configs@.take(configs@.len() as int) =~= configs@);
        }
        details.push(self.config.resolver.detail());
        details.push(nginx_service_detail());
        proof {
            assert(details@.map_values(|d: ServiceDetail| d@) =~~= services_views(self.config));
        }
        details
    }

    /// The detail records of the enabled services.
    pub fn active_services(&self) -> (r: Vec<ServiceDetail>)
        ensures
            r@.map_values(|d: ServiceDetail| d@) == enabled_views(services_views(self.config)),
    {
        let all = self.services();
        let ghost views = all@.map_values(|d: ServiceDetail| d@);
        let mut picked: Vec<ServiceDetail> = Vec::new();
        let mut i: usize = 0;
        proof {
            assert(views.take(0) =~= Seq::<DetailView>::empty());
            assert(picked@.map_values(|d: ServiceDetail| d@) =~= enabled_views(views.take(0)));
        }
        while i < all.len()
            invariant
                i <= all@.len(),
                views == all@.map_values(|d: ServiceDetail| d@),
                picked@.map_values(|d: ServiceDetail| d@) =~= enabled_views(views.take(i as int)),
            decreases all@.len() - i,
        {
            if all[i].enabled {
                picked.push(all[i].clone());
            }
            proof {
                assert(views.take(i as int + 1).drop_last() =~= views.take(i as int));
                assert(views.take(i as int + 1).last() == views[i as int]);
                assert(picked@.map_values(|d: ServiceDetail| d@) =~~= enabled_views(
                    views.take(i as int + 1),
                ));
            }
            i = i + 1;
        }
        proof {
            assert(views.take(views.len() as int) =~= views);
        }
        picked
    }

    /// The detail records of the managed services.
    pub fn managed_services(&self) -> (r: Vec<ServiceDetail>)
        ensures
            r@.map_values(|d: ServiceDetail| d@) == managed_views(services_views(self.config)),
    {
        let all = self.services();
        let ghost views = all@.map_values(|d: ServiceDetail| d@);
        let mut picked: Vec<ServiceDetail> = Vec::new();
        let mut i: usize = 0;
        proof {
            assert(views.take(0) =~= Seq::<DetailView>::empty());
            assert(picked@.map_values(|d: ServiceDetail| d@) =~= managed_views(views.take(0)));
        }
        while i < all.len()
            invariant
                i <= all@.len(),
                views == all@.map_values(|d: ServiceDetail| d@),
                picked@.map_values(|d: ServiceDetail| d@) =~= managed_views(views.take(i as int)),
            decreases all@.len() - i,
        {
            if all[i].managed {
                picked.push(all[i].clone());
            }
            proof {
                assert(views.take(i as int + 1).drop_last() =~= views.take(i as int));
                assert(views.take(i as int + 1).last() == views[i as int]);
                assert(picked@.map_values(|d: ServiceDetail| d@) =~~= managed_views(
                    views.take(i as int + 1),
                ));
            }
            i = i + 1;
        }
        proof {
            assert(views.take(views.len() as int) =~= views);
        }
        picked
    }

    /// The detail records of the managed services that are enabled.
    pub fn managed_active_services(&self) -> (r: Vec<ServiceDetail>)
        ensures
            r@.map_values(|d: ServiceDetail| d@) == managed_enabled_views(
                services_views(self.config),
            ),
    {
        let all = self.services();
        let ghost views = all@.map_values(|d: ServiceDetail| d@);
        let mut picked: Vec<ServiceDetail> = Vec::new();
        let mut i: usize = 0;
        proof {
            assert(views.take(0) =~= Seq::<DetailView>::empty());
            assert(picked@.map_values(|d: ServiceDetail| d@) =~= managed_enabled_views(
                views.take(0),
            ));
        }
        while i < all.len()
            invariant
                i <= all@.len(),
                views == all@.map_values(|d: ServiceDetail| d@),
                picked@.map_values(|d: ServiceDetail| d@) =~= managed_enabled_views(
                    views.take(i as int),
                ),
            decreases all@.len() - i,
        {
            if all[i].enabled && all[i].managed {
                picked.push(all[i].clone());
            }
            proof {
                assert(views.take(i as int + 1).drop_last() =~= views.take(i as int));
                assert(views.take(i as int + 1).last() == views[i as int]);
                assert(picked@.map_values(|d: ServiceDetail| d@) =~~= managed_enabled_views(
                    views.take(i as int + 1),
                ));
            }
            i = i + 1;
        }
        proof {
            assert(views.take(views.len() as int) =~= views);
        }
        picked
    }

    /// The aggregated reverse-proxy route list: every node route, then
    /// the resolver's root route.
    pub fn proxy_configs(&self) -> (r: Vec<ProxyConfig>)
        ensures
            r@.map_values(|p: ProxyConfig| (p.path@, p.proxy_kind)) == all_routes(self.config),
    {
        let mut routes: Vec<ProxyConfig> = Vec::new();
        let configs = &self.config.kaspad;
        let mut i: usize = 0;
        proof {
            assert(configs@.take(0) =~= Seq::<kaspad::Config>::empty());
            assert(routes@.map_values(|p: ProxyConfig| (p.path@, p.proxy_kind)) =~= all_node_routes(
                configs@.take(0),
            ));
        }
        while i < configs.len()
            invariant
                i <= configs@.len(),
                configs@ == self.config.kaspad@,
                routes@.map_values(|p: ProxyConfig| (p.path@, p.proxy_kind)) =~= all_node_routes(
                    configs@.take(i as int),
                ),
            decreases configs@.len() - i,
        {
            let mut node_routes = configs[i].proxy_routes();
            let ghost added = node_routes@.map_values(|p: ProxyConfig| (p.path@, p.proxy_kind));
            routes.append(&mut node_routes);
            proof {
                assert(configs@.take(i as int + 1).drop_last() =~= configs@.take(i as int));
                assert(configs@.take(i as int + 1).last() == configs@[i as int]);
                assert(routes@.map_values(|p: ProxyConfig| (p.path@, p.proxy_kind))
                    =~= all_node_routes(configs@.take(i as int)) + added);
                assert(routes@.map_values(|p: ProxyConfig| (p.path@, p.proxy_kind))
                    =~= all_node_routes(configs@.take(i as int + 1)));
            }
            i = i + 1;
        }
        proof {
            assert(configs@.take(configs@.len() as int) =~= configs@);
        }
        let mut resolver_routes = self.config.resolver.proxy_routes();
        routes.append(&mut resolver_routes);
        proof {
            assert(routes@.map_values(|p: ProxyConfig| (p.path@, p.proxy_kind)) =~= all_routes(
                self.config,
            ));
        }
        routes
    }
}

/// The reconciliation entries of the whole desired state: one per node
/// instance, then the resolver, each beside its observed unit state.
pub open spec fn service_entries(c: Config, observed: Seq<ObservedUnit>) -> Seq<ReconcileEntry> {
    Seq::new(
        c.kaspad@.len() as nat,
        |i: int|
            ReconcileEntry {
                enabled: c.kaspad@[i].enabled,
                node_instance: true,
                observed: observed[i],
            },
    ) + seq![
        ReconcileEntry {
            enabled: c.resolver.enabled,
            node_instance: false,
            observed: observed[c.kaspad@.len() as int],
        },
    ]
}

/// The domain names the proxy serves: the configured ones, or the default
/// wildcard set.
pub open spec fn proxy_fqdns(c: Config) -> Seq<Seq<char>> {
    match c.fqdn {
        Some(domains) => domains@.map_values(|s: String| s@),
        None => crate::fqdn::default_domains(),
    }
}

impl Context {
    /// The reconciliation entries of the whole desired state, for the
    /// observed unit states in the same order (every node instance, then
    /// the resolver).
    pub fn reconcile_entries(&self, observed: &Vec<ObservedUnit>) -> (r: Vec<ReconcileEntry>)
        requires
            observed@.len() == self.config.kaspad@.len() + 1,
        ensures
            r@ == service_entries(self.config, observed@),
    {
        let mut entries: Vec<ReconcileEntry> = Vec::new();
        let configs = &self.config.kaspad;
        let mut i: usize = 0;
        while i < configs.len()
            invariant
                i <= configs@.len(),
                configs@ == self.config.kaspad@,
                observed@.len() == configs@.len() + 1,
                entries@ =~= service_entries(self.config, observed@).take(i as int),
            decreases configs@.len() - i,
        {
            entries.push(
                ReconcileEntry {
                    enabled: configs[i].enabled,
                    node_instance: true,
                    observed: observed[i],
                },
            );
            proof {
                assert(entries@ =~= service_entries(self.config, observed@).take(i as int + 1));
            }
            i = i + 1;
        }
        entries.push(
            ReconcileEntry {
                enabled: self.config.resolver.enabled,
                node_instance: false,
                observed: observed[configs.len()],
            },
        );
        proof {
            assert(entries@ =~= service_entries(self.config, observed@));
        }
        entries
    }

    /// The aggregated proxy site definition: one server over the
    /// configured or default domain names, TLS when certificates are set,
    /// and every route of the desired state.
    pub fn proxy_site(&self) -> (r: crate::nginx::Config)
        ensures
            r.service_name@ == "kaspa"@,
            r.proxy_config@.map_values(|p: ProxyConfig| (p.path@, p.proxy_kind)) == all_routes(
                self.config,
            ),
            (match self.config.nginx.certs {
                Some(c) => (r.server_kind matches ServerKind::Ssl { port, certs, fqdns }
                    && port is None && certs.key@ == c.key@ && certs.crt@ == c.crt@
                    && fqdns@.map_values(|s: String| s@) == proxy_fqdns(self.config)),
                None => (r.server_kind matches ServerKind::Http { port, fqdns } && port is None
                    && fqdns@.map_values(|s: String| s@) == proxy_fqdns(self.config)),
            }),
    {
        let fqdns: Vec<String> = match &self.config.fqdn {
            Some(domains) => clone_strings(domains),
            None => crate::fqdn::get(),
        };
        let kind = match self.config.nginx.certs() {
            Some(certs) => ServerKind::Ssl { port: None, certs, fqdns },
            None => ServerKind::Http { port: None, fqdns },
        };
        crate::nginx::Config::new(String::from_str("kaspa"), kind, self.proxy_configs())
    }
}

fn clone_strings(strings: &Vec<String>) -> (r: Vec<String>)
    ensures
        r@.map_values(|s: String| s@) == strings@.map_values(|s: String| s@),
{
    let mut out: Vec<String> = Vec::new();
    let mut i: usize = 0;
    proof {
        assert(out@.map_values(|s: String| s@) =~= strings@.map_values(|s: String| s@).take(0));
    }
    while i < strings.len()
        invariant
            i <= strings@.len(),
            out@.map_values(|s: String| s@) =~= strings@.map_values(|s: String| s@).take(i as int),
        decreases strings@.len() - i,
    {
        let ghost before = out@.map_values(|s: String| s@);
        out.push(strings[i].clone());
        proof {
            assert(out@.map_values(|s: String| s@) =~= before + seq![strings@[i as int]@]);
            assert(out@.map_values(|s: String| s@) =~= strings@.map_values(|s: String| s@).take(
                i as int + 1,
            ));
        }
        i = i + 1;
    }
    proof {
        assert(strings@.map_values(|s: String| s@).take(strings@.len() as int) =~= strings@.map_values(
            |s: String| s@,
        ));
    }
    out
}

/// The detail record of the reverse proxy.
pub fn nginx_service_detail() -> (r: ServiceDetail)
    ensures
        r@ == nginx_detail_view(),
{
    ServiceDetail::new(
        String::from_str("Nginx"),
        String::from_str("nginx"),
        ServiceKind::Nginx,
        None,
        true,
        false,
    )
}

} // verus!
