//! Reverse-proxy configuration: server and route definitions, their
//! rendering into a single aggregated configuration file, and the persisted
//! TLS settings. Installing and reloading the proxy is the surrounding
//! program's job.

use vstd::prelude::*;
use crate::text::{dec_digits, joined};

verus! {

/// Paths of a TLS certificate and its private key.
#[derive(Debug)]
pub struct Certs {
    pub key: String,
    pub crt: String,
}

impl Clone for Certs {
    /// An exact copy of the certificate paths.
    fn clone(&self) -> (r: Certs)
        ensures
            r.key@ == self.key@,
            r.crt@ == self.crt@,
    {
        Certs { key: self.key.clone(), crt: self.crt.clone() }
    }
}

impl Certs {
    /// Certificate paths from key and certificate file names.
    pub fn new(key: String, crt: String) -> (r: Certs)
        ensures
            r.key@ == key@,
            r.crt@ == crt@,
    {
        Certs { key, crt }
    }
}

/// How the server listens: plain HTTP or TLS, with an optional explicit
/// port and the served domain names.
#[derive(Debug)]
pub enum ServerKind {
    Http { port: Option<u16>, fqdns: Vec<String> },
    Ssl { port: Option<u16>, certs: Certs, fqdns: Vec<String> },
}

/// The port an optional setting resolves to.
pub open spec fn port_or(port: Option<u16>, default: u16) -> u16 {
    match port {
        Some(p) => p,
        None => default,
    }
}

impl ServerKind {
    /// A plain HTTP server on the default port with no domain names yet.
    pub fn http() -> (r: ServerKind)
        ensures
            r matches ServerKind::Http { port, fqdns } && port is None && fqdns@.len() == 0,
    {
        ServerKind::Http { port: None, fqdns: Vec::new() }
    }

    /// The server with its port set.
    pub fn with_port(self, port: u16) -> (r: ServerKind)
        ensures
            (match self {
                ServerKind::Http { fqdns, .. } => (r matches ServerKind::Http {
                    port: rp,
                    fqdns: rf,
                } && rp == Some(port) && rf@ == fqdns@),
                ServerKind::Ssl { certs, fqdns, .. } => (r matches ServerKind::Ssl {
                    port: rp,
                    certs: rc,
                    fqdns: rf,
                } && rp == Some(port) && rc == certs && rf@ == fqdns@),
            }),
    {
        match self {
            ServerKind::Http { port: _, fqdns } => ServerKind::Http { port: Some(port), fqdns },
            ServerKind::Ssl { port: _, certs, fqdns } => ServerKind::Ssl {
                port: Some(port),
                certs,
                fqdns,
            },
        }
    }

    /// The server with domain names appended.
    pub fn with_fqdn(self, fqdn: Vec<String>) -> (r: ServerKind)
        ensures
            (match self {
                ServerKind::Http { port, fqdns } => (r matches ServerKind::Http {
                    port: rp,
                    fqdns: rf,
                } && rp == port && rf@ == fqdns@ + fqdn@),
                ServerKind::Ssl { port, certs, fqdns } => (r matches ServerKind::Ssl {
                    port: rp,
                    certs: rc,
                    fqdns: rf,
                } && rp == port && rc == certs && rf@ == fqdns@ + fqdn@),
            }),
    {
        match self {
            ServerKind::Http { port, mut fqdns } => {
                let mut extra = fqdn;
                fqdns.append(&mut extra);
                ServerKind::Http { port, fqdns }
            },
            ServerKind::Ssl { port, certs, mut fqdns } => {
                let mut extra = fqdn;
                fqdns.append(&mut extra);
                ServerKind::Ssl { port, certs, fqdns }
            },
        }
    }

    /// The TLS server with its certificate paths replaced. Only a TLS
    /// server carries certificates.
    pub fn with_certs(self, key: String, crt: String) -> (r: ServerKind)
        requires
            self matches ServerKind::Ssl { .. },
        ensures
            (match self {
                ServerKind::Ssl { port, fqdns, .. } => (r matches ServerKind::Ssl {
                    port: rp,
                    certs: rc,
                    fqdns: rf,
                } && rp == port && rc.key@ == key@ && rc.crt@ == crt@ && rf@ == fqdns@),
                _ => false,
            }),
    {
        match self {
            ServerKind::Ssl { port, certs: _, fqdns } => ServerKind::Ssl {
                port,
                certs: Certs { key, crt },
                fqdns,
            },
            ServerKind::Http { port, fqdns } => ServerKind::Http { port, fqdns },
        }
    }
}

/// How a route forwards: plain HTTP, or upgrade-capable streaming.
#[derive(Clone, Copy, PartialEq, Eq, Structural, Debug)]
pub enum ProxyKind {
    Http { port: u16 },
    Wrpc { port: u16 },
}

impl ProxyKind {
    /// A plain HTTP route to the given local port.
    pub fn http(port: u16) -> (r: ProxyKind)
        ensures
            r == (ProxyKind::Http { port }),
    {
        ProxyKind::Http { port }
    }

    /// An upgrade-capable streaming route to the given local port.
    pub fn wrpc(port: u16) -> (r: ProxyKind)
        ensures
            r == (ProxyKind::Wrpc { port }),
    {
        ProxyKind::Wrpc { port }
    }
}

/// One route: the URL path prefix and how it forwards.
#[derive(Debug)]
pub struct ProxyConfig {
    pub path: String,
    pub proxy_kind: ProxyKind,
}

impl Clone for ProxyConfig {
    /// An exact copy of the route.
    fn clone(&self) -> (r: ProxyConfig)
        ensures
            r.path@ == self.path@,
            r.proxy_kind == self.proxy_kind,
    {
        ProxyConfig { path: self.path.clone(), proxy_kind: self.proxy_kind }
    }
}

impl ProxyConfig {
    /// A route from a path prefix and a forwarding kind.
    pub fn new(path: String, proxy_kind: ProxyKind) -> (r: ProxyConfig)
        ensures
            r.path@ == path@,
            r.proxy_kind == proxy_kind,
    {
        ProxyConfig { path, proxy_kind }
    }
}

/// The aggregated reverse-proxy configuration: a comment naming the
/// service, one server block, and one location block per route.
#[derive(Debug)]
pub struct Config {
    pub service_name: String,
    pub server_kind: ServerKind,
    pub proxy_config: Vec<ProxyConfig>,
}

impl Config {
    /// A configuration from its parts.
    pub fn new(service_name: String, server_kind: ServerKind, proxy_config: Vec<ProxyConfig>) -> (r:
        Config)
        ensures
            r.service_name@ == service_name@,
            r.server_kind == server_kind,
            r.proxy_config@ == proxy_config@,
    {
        Config { service_name, server_kind, proxy_config }
    }

    /// Renders the whole configuration file.
    pub fn render(&self) -> (r: String)
        ensures
            r@ == config_text(*self),
    {
        let mut out = String::from_str("# ");
        out.append(self.service_name.as_str());
        out.append("\nserver {\n");
        match &self.server_kind {
            ServerKind::Http { port, fqdns } => {
                let p: u16 = match port {
                    Some(p) => *p,
                    None => 80,
                };
                let digits = crate::text::u16_to_dec(p);
                out.append("\tlisten ");
                out.append(digits.as_str());
                out.append(";\n\tlisten [::]:");
                out.append(digits.as_str());
                out.append(";\n\tserver_name ");
                let names = crate::fqdn::flatten(fqdns);
                out.append(names.as_str());
                out.append(";\n");
            },
            ServerKind::Ssl { port, certs, fqdns } => {
                let p: u16 = match port {
                    Some(p) => *p,
                    None => 443,
                };
                let digits = crate::text::u16_to_dec(p);
                out.append("\tlisten ");
                out.append(digits.as_str());
                out.append(" ssl;\n\tlisten [::]:");
                out.append(digits.as_str());
                out.append(" ssl;\n\tssl_certificate ");
                out.append(certs.crt.as_str());
                out.append("\n\tssl_certificate_key ");
                out.append(certs.key.as_str());
                out.append("\n\tserver_name ");
                let names = crate::fqdn::flatten(fqdns);
                out.append(names.as_str());
                out.append(";\n");
            },
        }
        out.append("\tclient_max_body_size 1m;\n");
        let ghost before_routes = out@;
        let mut i: usize = 0;
        proof {
            assert(self.proxy_config@.take(0) =~= Seq::<ProxyConfig>::empty());
            assert(out@ =~= before_routes + route_blocks(self.proxy_config@.take(0)));
        }
        while i < self.proxy_config.len()
            invariant
                i <= self.proxy_config@.len(),
                out@ =~= before_routes + route_blocks(self.proxy_config@.take(i as int)),
            decreases self.proxy_config@.len() - i,
        {
            let route = &self.proxy_config[i];
            out.append("\tlocation ");
            out.append(route.path.as_str());
            out.append(
                " {\n\t\tproxy_http_version 1.1;\n\t\tproxy_set_header Host $host;\n\t\tproxy_set_header X-Real-IP $remote_addr;\n",
            );
            match &route.proxy_kind {
                ProxyKind::Http { port } => {
                    let digits = crate::text::u16_to_dec(*port);
                    out.append("\t\tproxy_pass http://127.0.0.1:");
                    out.append(digits.as_str());
                    out.append("/;\n");
                },
                ProxyKind::Wrpc { port } => {
                    let digits = crate::text::u16_to_dec(*port);
                    out.append(
                        "\t\tproxy_set_header Upgrade $http_upgrade;\n\t\tproxy_set_header Connection \"Upgrade\";\n\t\tproxy_pass http://127.0.0.1:",
                    );
                    out.append(digits.as_str());
                    out.append("/;\n");
                },
            }
            out.append("\t}\n\n");
            proof {
                assert(self.proxy_config@.take(i as int + 1).drop_last() =~= self.proxy_config@.take(
                    i as int,
                ));
                assert(self.proxy_config@.take(i as int + 1).last() == self.proxy_config@[i as int]);
                assert(out@ =~= before_routes + route_blocks(self.proxy_config@.take(i as int + 1)));
            }
            i = i + 1;
        }
        proof {
            assert(self.proxy_config@.take(self.proxy_config@.len() as int) =~= self.proxy_config@);
        }
        out.append("}\n\n");
        out
    }
}

/// The listen and certificate lines of the server block.
pub open spec fn server_lines(kind: ServerKind) -> Seq<char> {
    match kind {
        ServerKind::Http { port, fqdns } => "\tlisten "@ + dec_digits(port_or(port, 80) as nat)
            + ";\n\tlisten [::]:"@ + dec_digits(port_or(port, 80) as nat) + ";\n\tserver_name "@
            + joined(fqdns@.map_values(|s: String| s@), " "@) + ";\n"@,
        ServerKind::Ssl { port, certs, fqdns } => "\tlisten "@ + dec_digits(
            port_or(port, 443) as nat,
        ) + " ssl;\n\tlisten [::]:"@ + dec_digits(port_or(port, 443) as nat)
            + " ssl;\n\tssl_certificate "@ + certs.crt@ + "\n\tssl_certificate_key "@ + certs.key@
            + "\n\tserver_name "@ + joined(fqdns@.map_values(|s: String| s@), " "@) + ";\n"@,
    }
}

/// The location block of one route.
pub open spec fn route_block(route: ProxyConfig) -> Seq<char> {
    "\tlocation "@ + route.path@
        + " {\n\t\tproxy_http_version 1.1;\n\t\tproxy_set_header Host $host;\n\t\tproxy_set_header X-Real-IP $remote_addr;\n"@
        + (match route.proxy_kind {
        ProxyKind::Http { port } => "\t\tproxy_pass http://127.0.0.1:"@ + dec_digits(port as nat)
            + "/;\n"@,
        ProxyKind::Wrpc { port } => {
            "\t\tproxy_set_header Upgrade $http_upgrade;\n\t\tproxy_set_header Connection \"Upgrade\";\n\t\tproxy_pass http://127.0.0.1:"@
                + dec_digits(port as nat) + "/;\n"@
        },
    }) + "\t}\n\n"@
}

/// The location blocks of all routes, in order.
pub open spec fn route_blocks(routes: Seq<ProxyConfig>) -> Seq<char>
    decreases routes.len(),
{
    if routes.len() == 0 {
        Seq::empty()
    } else {
        route_blocks(routes.drop_last()) + route_block(routes.last())
    }
}

/// The full text of the aggregated configuration file.
pub open spec fn config_text(c: Config) -> Seq<char> {
    "# "@ + c.service_name@ + "\nserver {\n"@ + server_lines(c.server_kind)
        + "\tclient_max_body_size 1m;\n"@ + route_blocks(c.proxy_config@) + "}\n\n"@
}

/// The path of the aggregated configuration file under the reverse
/// proxy's configuration directory.
pub open spec fn route_file_path(service_name: Seq<char>) -> Seq<char> {
    "/etc/nginx/sites-enabled/"@ + service_name + ".conf"@
}

/// The configuration file path for `service_name`.
pub fn config_filename(service_name: &str) -> (r: String)
    ensures
        r@ == route_file_path(service_name@),
{
    let mut out = String::from_str("/etc/nginx/sites-enabled/");
    out.append(service_name);
    out.append(".conf");
    out
}

/// The persisted reverse-proxy settings: the optional TLS certificate
/// paths.
#[derive(Debug)]
pub struct Settings {
    pub certs: Option<Certs>,
}

impl Default for Settings {
    /// Settings with no certificates configured.
    fn default() -> (r: Settings)
        ensures
            r.certs is None,
    {
        Settings { certs: None }
    }
}

impl Clone for Settings {
    /// An exact copy of the settings.
    fn clone(&self) -> (r: Settings)
        ensures
            (match self.certs {
                Some(c) => (r.certs matches Some(rc) && rc.key@ == c.key@ && rc.crt@ == c.crt@),
                None => r.certs is None,
            }),
    {
        Settings {
            certs: match &self.certs {
                Some(c) => Some(c.clone()),
                None => None,
            },
        }
    }
}

impl Settings {
    /// The configured certificate paths, when TLS is enabled.
    pub fn certs(&self) -> (r: Option<Certs>)
        ensures
            (match self.certs {
                Some(c) => (r matches Some(rc) && rc.key@ == c.key@ && rc.crt@ == c.crt@),
                None => r is None,
            }),
    {
        match &self.certs {
            Some(c) => Some(c.clone()),
            None => None,
        }
    }

    /// Enables TLS with the given certificate paths.
    pub fn enable_certs(&mut self, certs: Certs)
        ensures
            final(self).certs == Some(certs),
    {
        self.certs = Some(certs);
    }

    /// Disables TLS.
    pub fn disable_certs(&mut self)
        ensures
            final(self).certs is None,
    {
        self.certs = None;
    }
}

} // verus!
