//! Service identity: the closed set of service kinds, the detail record
//! that describes one manageable service instance, and the capability
//! interface the concrete service configurations implement.

use vstd::prelude::*;
use crate::git::{Origin, OriginView};
use crate::network::Network;
use crate::nginx::ProxyConfig;

verus! {

/// The closed set of service kinds this tool manages.
#[derive(Clone, Copy, PartialEq, Eq, Structural, Debug, Hash)]
pub enum ServiceKind {
    /// A p2p node instance on the given network.
    Kaspad(Network),
    /// The RPC load-balancing resolver.
    Resolver,
    /// The HTTP reverse proxy.
    Nginx,
}

/// One manageable service instance: caption, stable unit name, kind,
/// optional source origin, and the enabled and managed flags.
#[derive(Debug)]
pub struct ServiceDetail {
    pub caption: String,
    pub name: String,
    pub kind: ServiceKind,
    pub origin: Option<Origin>,
    pub enabled: bool,
    pub managed: bool,
}

/// The spec-level view of a service detail.
#[verifier::ext_equal]
pub struct DetailView {
    pub caption: Seq<char>,
    pub name: Seq<char>,
    pub kind: ServiceKind,
    pub origin: Option<OriginView>,
    pub enabled: bool,
    pub managed: bool,
}

impl View for ServiceDetail {
    type V = DetailView;

    open spec fn view(&self) -> DetailView {
        DetailView {
            caption: self.caption@,
            name: self.name@,
            kind: self.kind,
            origin: match self.origin {
                Some(o) => Some(o@),
                None => None,
            },
            enabled: self.enabled,
            managed: self.managed,
        }
    }
}

impl Clone for ServiceDetail {
    /// An exact copy of the detail record.
    fn clone(&self) -> (r: ServiceDetail)
        ensures
            r@ == self@,
    {
        ServiceDetail {
            caption: self.caption.clone(),
            name: self.name.clone(),
            kind: self.kind,
            origin: match &self.origin {
                Some(o) => Some(o.clone()),
                None => None,
            },
            enabled: self.enabled,
            managed: self.managed,
        }
    }
}

impl ServiceDetail {
    /// A detail record from its parts.
    pub fn new(
        caption: String,
        name: String,
        kind: ServiceKind,
        origin: Option<Origin>,
        enabled: bool,
        managed: bool,
    ) -> (r: ServiceDetail)
        ensures
            r@.caption == caption@,
            r@.name == name@,
            r@.kind == kind,
            r@.origin == (match origin {
                Some(o) => Some(o@),
                None => None::<OriginView>,
            }),
            r@.enabled == enabled,
            r@.managed == managed,
    {
        ServiceDetail { caption, name, kind, origin, enabled, managed }
    }

    /// Renders the detail as `caption (name)`.
    pub fn render(&self) -> (r: String)
        ensures
            r@ == self@.caption + " ("@ + self@.name + ")"@,
    {
        let mut out = self.caption.clone();
        out.append(" (");
        out.append(self.name.as_str());
        out.append(")");
        out
    }
}

/// The capability interface of a manageable service: identity, enablement
/// and route generation. The concrete configuration types implement it by
/// delegating to their contract-carrying inherent methods.
pub trait Service {
    /// The human caption of the service.
    fn service_title(&self) -> String;

    /// The stable unit name of the service.
    fn service_name(&self) -> String;

    /// The kind of the service.
    fn kind(&self) -> ServiceKind;

    /// The source origin the service is built from, if any.
    fn origin(&self) -> Option<Origin>;

    /// Whether the operator wants the service enabled.
    fn enabled(&self) -> bool;

    /// Whether this tool may create and remove the service's unit.
    fn managed(&self) -> bool;

    /// The reverse-proxy routes the service serves, if any.
    fn proxy_config(&self) -> Option<Vec<ProxyConfig>>;

    /// The detail record of the service.
    fn service_detail(&self) -> ServiceDetail;
}

/// Whether some selected service has the given kind.
pub open spec fn selection_has_kind(selection: Seq<DetailView>, kind: ServiceKind) -> bool {
    exists|i: int| 0 <= i < selection.len() && (#[trigger] selection[i]).kind == kind
}

/// The networks of the node-instance services in the selection, in order.
pub open spec fn selected_networks(selection: Seq<DetailView>) -> Seq<Network>
    decreases selection.len(),
{
    if selection.len() == 0 {
        Seq::empty()
    } else {
        selected_networks(selection.drop_last()) + (match selection.last().kind {
            ServiceKind::Kaspad(network) => seq![network],
            _ => Seq::empty(),
        })
    }
}

/// Applies a service selection to the desired state: the resolver is
/// enabled exactly when selected, and the networks of the selected node
/// instances are returned for the node configuration pass.
pub fn enable_services(config: &mut crate::config::Config, services: &Vec<ServiceDetail>) -> (r:
    Vec<Network>)
    ensures
        r@ == selected_networks(services@.map_values(|d: ServiceDetail| d@)),
        final(config).resolver.enabled == selection_has_kind(
            services@.map_values(|d: ServiceDetail| d@),
            ServiceKind::Resolver,
        ),
        final(config).resolver.kind == old(config).resolver.kind,
        final(config).resolver.certs == old(config).resolver.certs,
        final(config).resolver.origin == old(config).resolver.origin,
        final(config).resolver.sync == old(config).resolver.sync,
        final(config).resolver.stats == old(config).resolver.stats,
        final(config).resolver.http == old(config).resolver.http,
        final(config).version == old(config).version,
        final(config).bootstrap == old(config).bootstrap,
        final(config).disable_sudo_prompt == old(config).disable_sudo_prompt,
        final(config).public == old(config).public,
        final(config).fqdn == old(config).fqdn,
        final(config).ip == old(config).ip,
        final(config).nginx == old(config).nginx,
        final(config).kaspad == old(config).kaspad,
{
    let ghost views = services@.map_values(|d: ServiceDetail| d@);
    let mut networks: Vec<Network> = Vec::new();
    let mut resolver_selected = false;
    let mut i: usize = 0;
    proof {
        assert(views.take(0) =~= Seq::<DetailView>::empty());
        assert(networks@ =~= selected_networks(views.take(0)));
        assert(!selection_has_kind(views.take(0), ServiceKind::Resolver));
    }
    while i < services.len()
        invariant
            i <= services@.len(),
            views == services@.map_values(|d: ServiceDetail| d@),
            networks@ =~= selected_networks(views.take(i as int)),
            resolver_selected == selection_has_kind(views.take(i as int), ServiceKind::Resolver),
        decreases services@.len() - i,
    {
        let detail = &services[i];
        match detail.kind {
            ServiceKind::Kaspad(network) => {
                networks.push(network);
            },
            ServiceKind::Resolver => {
                resolver_selected = true;
            },
            ServiceKind::Nginx => {},
        }
        proof {
            assert(views.take(i as int + 1).drop_last() =~= views.take(i as int));
            assert(views.take(i as int + 1).last() == views[i as int]);
            assert(views[i as int].kind == services@[i as int]@.kind);
            if selection_has_kind(views.take(i as int), ServiceKind::Resolver) {
                let w = choose|k: int|
                    0 <= k < i && (#[trigger] views.take(i as int)[k]).kind
                        == ServiceKind::Resolver;
                assert((views.take(i as int + 1)[w]).kind == ServiceKind::Resolver);
            }
            if views[i as int].kind == ServiceKind::Resolver {
                assert((views.take(i as int + 1)[i as int]).kind == ServiceKind::Resolver);
            }
            if selection_has_kind(views.take(i as int + 1), ServiceKind::Resolver) && views[
                i as int
            ].kind != ServiceKind::Resolver {
                let w = choose|k: int|
                    0 <= k < i + 1 && (#[trigger] views.take(i as int + 1)[k]).kind
                        == ServiceKind::Resolver;
                assert((views.take(i as int)[w]).kind == ServiceKind::Resolver);
            }
        }
        i = i + 1;
    }
    proof {
        assert(views.take(views.len() as int) =~= views);
    }
    config.resolver.enabled = resolver_selected;
    networks
}

} // verus!
