//! The RPC resolver service: its desired state, derived command line,
//! unit definition, route and key handling, and its side of
//! reconciliation. Fetching, building and the encrypted configuration
//! download live in the surrounding program.

use vstd::prelude::*;
use crate::context::Context;
use crate::git::{Origin, OriginView};
use crate::network::{interface_text, Interface};
use crate::nginx::{Certs, ProxyConfig, ProxyKind};
use crate::reconcile::{plan_spec, ObservedUnit, ReconcileEntry, Step};
use crate::service::{Service, ServiceDetail, ServiceKind};
use crate::text::{dec_digits, joined};
use crate::error::{Error, Result};

verus! {

/// The resolver's unit name.
pub fn service_name() -> (r: String)
    ensures
        r@ == "kaspa-resolver"@,
{
    String::from_str("kaspa-resolver")
}

/// The kind of resolver deployment.
#[derive(Clone, Copy, PartialEq, Eq, Structural, Debug)]
pub enum ResolverKind {
    /// Contributor-maintained public network.
    Public,
    /// Dedicated high-availability cluster.
    Private,
}

/// The desired state of the resolver service.
#[derive(Debug)]
pub struct Config {
    pub enabled: bool,
    pub kind: Option<ResolverKind>,
    pub certs: Option<Certs>,
    pub origin: Origin,
    pub sync: bool,
    pub stats: bool,
    pub http: Option<Interface>,
}

/// The spec-level view of the resolver configuration.
#[verifier::ext_equal]
pub struct ResolverView {
    pub enabled: bool,
    pub kind: Option<ResolverKind>,
    pub certs: Option<(Seq<char>, Seq<char>)>,
    pub origin: OriginView,
    pub sync: bool,
    pub stats: bool,
    pub http: Option<Interface>,
}

impl View for Config {
    type V = ResolverView;

    open spec fn view(&self) -> ResolverView {
        ResolverView {
            enabled: self.enabled,
            kind: self.kind,
            certs: match self.certs {
                Some(c) => Some((c.key@, c.crt@)),
                None => None,
            },
            origin: self.origin@,
            sync: self.sync,
            stats: self.stats,
            http: self.http,
        }
    }
}

impl Clone for Config {
    /// An exact copy of the configuration.
    fn clone(&self) -> (r: Config)
        ensures
            r@ == self@,
    {
        Config {
            enabled: self.enabled,
            kind: self.kind,
            certs: match &self.certs {
                Some(c) => Some(c.clone()),
                None => None,
            },
            origin: self.origin.clone(),
            sync: self.sync,
            stats: self.stats,
            http: self.http,
        }
    }
}

impl Config {
    /// A disabled resolver with statistics on and no interface yet.
    pub fn new(origin: Origin) -> (r: Config)
        ensures
            r@ == (ResolverView {
                enabled: false,
                kind: None,
                certs: None,
                origin: origin@,
                sync: false,
                stats: true,
                http: None,
            }),
    {
        Config {
            enabled: false,
            kind: None,
            certs: None,
            origin,
            sync: false,
            stats: true,
            http: None,
        }
    }

    /// The configuration with statistics reporting on.
    pub fn with_stats(self) -> (r: Config)
        ensures
            r@ == (ResolverView { stats: true, ..self@ }),
    {
        Config { stats: true, ..self }
    }

    /// The configuration listening on all addresses at the given port.
    pub fn with_public_interface(self, port: u16) -> (r: Config)
        ensures
            r@ == (ResolverView { http: Some(Interface::Public(port)), ..self@ }),
    {
        Config { http: Some(Interface::Public(port)), ..self }
    }

    /// The configuration listening on loopback at the given port.
    pub fn with_local_interface(self, port: u16) -> (r: Config)
        ensures
            r@ == (ResolverView { http: Some(Interface::Local(port)), ..self@ }),
    {
        Config { http: Some(Interface::Local(port)), ..self }
    }

    /// Whether the operator wants the resolver enabled.
    pub fn enabled(&self) -> (r: bool)
        ensures
            r == self.enabled,
    {
        self.enabled
    }

    /// The human caption of the resolver.
    pub fn service_title(&self) -> (r: String)
        ensures
            r@ == "Kaspa RPC resolver"@,
    {
        String::from_str("Kaspa RPC resolver")
    }

    /// The resolver's command-line arguments, derived from the
    /// configuration.
    pub fn args(&self) -> (r: Vec<String>)
        ensures
            r@.map_values(|s: String| s@) == resolver_args(self@),
    {
        let mut args: Vec<String> = Vec::new();
        if self.stats {
            args.push(String::from_str("--stats"));
        }
        if let Some(interface) = &self.http {
            let mut arg = String::from_str("--listen=");
            let text = interface.render();
            arg.append(text.as_str());
            args.push(arg);
        }
        proof {
            assert(args@.map_values(|s: String| s@) =~= resolver_args(self@));
        }
        args
    }

    /// The resolver's single reverse-proxy route: the root path, forwarded
    /// plainly to its local port.
    pub fn proxy_routes(&self) -> (r: Vec<ProxyConfig>)
        ensures
            r@.map_values(|p: ProxyConfig| (p.path@, p.proxy_kind)) == seq![
                ("/"@, ProxyKind::Http { port: 8989u16 }),
            ],
    {
        let mut routes: Vec<ProxyConfig> = Vec::new();
        routes.push(ProxyConfig::new(String::from_str("/"), ProxyKind::http(8989)));
        proof {
            assert(routes@.map_values(|p: ProxyConfig| (p.path@, p.proxy_kind)) =~= seq![
                ("/"@, ProxyKind::Http { port: 8989u16 }),
            ]);
        }
        routes
    }
}

/// The resolver's command-line arguments.
pub open spec fn resolver_args(c: ResolverView) -> Seq<Seq<char>> {
    (if c.stats {
        seq!["--stats"@]
    } else {
        Seq::empty()
    }) + (match c.http {
        Some(i) => seq!["--listen="@ + interface_text(i)],
        None => Seq::empty(),
    })
}

impl Config {
    /// The detail record of the resolver.
    pub fn detail(&self) -> (r: ServiceDetail)
        ensures
            r@ == (crate::service::DetailView {
                caption: "Kaspa RPC resolver"@,
                name: "kaspa-resolver"@,
                kind: ServiceKind::Resolver,
                origin: Some(self@.origin),
                enabled: self.enabled,
                managed: true,
            }),
    {
        ServiceDetail::new(
            Config::service_title(self),
            service_name(),
            ServiceKind::Resolver,
            Some(self.origin.clone()),
            self.enabled,
            true,
        )
    }
}

impl Service for Config {
    fn service_title(&self) -> String {
        Config::service_title(self)
    }

    fn service_name(&self) -> String {
        service_name()
    }

    fn kind(&self) -> ServiceKind {
        ServiceKind::Resolver
    }

    fn origin(&self) -> Option<Origin> {
        Some(self.origin.clone())
    }

    fn enabled(&self) -> bool {
        self.enabled
    }

    fn managed(&self) -> bool {
        true
    }

    fn proxy_config(&self) -> Option<Vec<ProxyConfig>> {
        Some(Config::proxy_routes(self))
    }

    fn service_detail(&self) -> ServiceDetail {
        Config::detail(self)
    }
}

/// The folder holding all resolver checkouts.
pub fn base_folder(root: &str) -> (r: String)
    ensures
        r@ == root@ + "/kaspa-resolver"@,
{
    let mut out = root.to_owned();
    out.append("/kaspa-resolver");
    out
}

/// The checkout folder of an origin.
pub fn folder(origin: &Origin, root: &str) -> (r: String)
    ensures
        r@ == root@ + "/kaspa-resolver/"@ + origin@.owner + "/"@ + (match origin@.branch {
            Some(b) => b,
            None => "master"@,
        }),
{
    let mut out = base_folder(root);
    out.append("/");
    let sub = origin.folder();
    out.append(sub.as_str());
    proof {
        reveal_strlit("/kaspa-resolver");
        reveal_strlit("/kaspa-resolver/");
        reveal_strlit("/");
        assert(out@ =~= root@ + "/kaspa-resolver/"@ + origin@.owner + "/"@ + (
        match origin@.branch {
            Some(b) => b,
            None => "master"@,
        }));
    }
    out
}

/// The built resolver binary of an origin.
pub fn binary(origin: &Origin, root: &str) -> (r: String)
    ensures
        r@ == root@ + "/kaspa-resolver/"@ + origin@.owner + "/"@ + (match origin@.branch {
            Some(b) => b,
            None => "master"@,
        }) + "/target/release/resolver"@,
{
    let mut out = folder(origin, root);
    out.append("/target/release/resolver");
    proof {
        assert(out@ =~= root@ + "/kaspa-resolver/"@ + origin@.owner + "/"@ + (
        match origin@.branch {
            Some(b) => b,
            None => "master"@,
        }) + "/target/release/resolver"@);
    }
    out
}

/// The certificate paths the resolver serves with: its own when set, else
/// the reverse proxy's.
pub fn certs(ctx: &Context) -> (r: Option<Certs>)
    ensures
        (match ctx.config.resolver@.certs {
            Some(c) => (r matches Some(rc) && rc.key@ == c.0 && rc.crt@ == c.1),
            None => (match ctx.config.nginx.certs {
                Some(c) => (r matches Some(rc) && rc.key@ == c.key@ && rc.crt@ == c.crt@),
                None => r is None,
            }),
        }),
{
    match &ctx.config.resolver.certs {
        Some(c) => Some(c.clone()),
        None => ctx.config.nginx.certs(),
    }
}

/// The unit definition for the resolver: its binary and derived
/// arguments, run as the operator's account, restarting after five
/// seconds.
pub fn create_systemd_unit(ctx: &Context, config: &Config) -> (r: crate::systemd::Config)
    ensures
        r.service@ == "kaspa-resolver"@,
        r.description@ == "Kaspa Resolver"@,
        r.user@ == ctx.username@,
        r.exec_start@ == joined(
            seq![
                ctx.home@ + "/kaspa/kaspa-resolver/"@ + config@.origin.owner + "/"@ + (
                match config@.origin.branch {
                    Some(b) => b,
                    None => "master"@,
                }) + "/target/release/resolver"@,
            ] + resolver_args(config@),
            " "@,
        ),
        r.restart_secs == 5,
{
    let root = crate::folders::root_folder(ctx.home.as_str());
    let bin = binary(&config.origin, root.as_str());
    let mut exec_start: Vec<String> = Vec::new();
    exec_start.push(bin);
    let mut args = config.args();
    exec_start.append(&mut args);
    proof {
        reveal_strlit("/kaspa");
        reveal_strlit("/kaspa-resolver/");
        reveal_strlit("/kaspa/kaspa-resolver/");
        let views = exec_start@.map_values(|s: String| s@);
        assert(views[0] =~= ctx.home@ + "/kaspa/kaspa-resolver/"@ + config@.origin.owner + "/"@ + (
        match config@.origin.branch {
            Some(b) => b,
            None => "master"@,
        }) + "/target/release/resolver"@);
        assert(views =~= seq![
            ctx.home@ + "/kaspa/kaspa-resolver/"@ + config@.origin.owner + "/"@ + (
            match config@.origin.branch {
                Some(b) => b,
                None => "master"@,
            }) + "/target/release/resolver"@,
        ] + resolver_args(config@));
    }
    crate::systemd::Config::new(
        service_name(),
        String::from_str("Kaspa Resolver"),
        ctx.username.clone(),
        exec_start,
        5,
    )
}

/// The resolver's single reconciliation entry beside its observed unit
/// state.
pub open spec fn resolver_entry(config: Config, observed: ObservedUnit) -> ReconcileEntry {
    ReconcileEntry { enabled: config.enabled, node_instance: false, observed: observed }
}

/// Plans the resolver side of reconciliation over its single unit.
pub fn reconfigure(ctx: &Context, observed: ObservedUnit, force: bool) -> (r: Vec<Step>)
    ensures
        r@ == plan_spec(seq![resolver_entry(ctx.config.resolver, observed)], force, false),
{
    let mut entries: Vec<ReconcileEntry> = Vec::new();
    entries.push(
        ReconcileEntry {
            enabled: ctx.config.resolver.enabled,
            node_instance: false,
            observed,
        },
    );
    proof {
        assert(entries@ =~= seq![resolver_entry(ctx.config.resolver, observed)]);
    }
    crate::reconcile::plan(&entries, force, false)
}

/// The resolver's private configuration folder.
pub fn resolver_config_folder(home: &str) -> (r: String)
    ensures
        r@ == home@ + "/.kaspa-resolver"@,
{
    let mut out = home.to_owned();
    out.append("/.kaspa-resolver");
    out
}

/// The file name of the resolver's key.
pub fn key_file() -> (r: String)
    ensures
        r@ == ".key"@,
{
    String::from_str(".key")
}

/// The file name of an encrypted resolver configuration of the given
/// version: `resolver.{version}.bin`.
pub fn resolver_config_file(version: u64) -> (r: String)
    ensures
        r@ == "resolver."@ + dec_digits(version as nat) + ".bin"@,
{
    let mut out = String::from_str("resolver.");
    let digits = crate::text::u64_to_dec(version);
    out.append(digits.as_str());
    out.append(".bin");
    out
}

/// The big-endian value of a key's first two bytes.
pub open spec fn key_prefix(key: Seq<u8>) -> u16 {
    (key[0] * 256 + key[1]) as u16
}

/// Checks a derived key against a required prefix: the big-endian value
/// of the key's first two bytes must equal the prefix when one is
/// required.
pub fn verify_key_prefix(key: &Vec<u8>, required: Option<u16>) -> (r: Result<()>)
    requires
        key@.len() >= 2,
    ensures
        r is Ok <==> (match required {
            Some(p) => p == key_prefix(key@),
            None => true,
        }),
        r is Err ==> (match required {
            Some(p) => r->Err_0 == Error::ResolverKeyPrefix(p, key_prefix(key@)),
            None => false,
        }),
{
    match required {
        Some(p) => {
            let actual: u16 = (key[0] as u16) * 256 + (key[1] as u16);
            if p == actual {
                Ok(())
            } else {
                Err(Error::ResolverKeyPrefix(p, actual))
            }
        },
        None => Ok(()),
    }
}

} // verus!
