//! The wildcard domain names served by a public node, and helpers over
//! domain-name lists.

use vstd::prelude::*;
use crate::text::joined;

verus! {

/// The wildcard domains of the public node network.
pub open spec fn default_domains() -> Seq<Seq<char>> {
    seq![
        "*.kaspa.stream"@,
        "*.kaspa.red"@,
        "*.kaspa.green"@,
        "*.kaspa.blue"@,
        "*.kaspa-ng.net"@,
        "*.kaspa-ng.org"@,
        "*.kaspa-ng.io"@,
        "*.kaspa.org"@,
        "*.kaspacalc.net"@,
    ]
}

/// The wildcard domains of the public node network.
pub fn get() -> (r: Vec<String>)
    ensures
        r@.map_values(|s: String| s@) == default_domains(),
{
    let mut domains: Vec<String> = Vec::new();
    domains.push(String::from_str("*.kaspa.stream"));
    domains.push(String::from_str("*.kaspa.red"));
    domains.push(String::from_str("*.kaspa.green"));
    domains.push(String::from_str("*.kaspa.blue"));
    domains.push(String::from_str("*.kaspa-ng.net"));
    domains.push(String::from_str("*.kaspa-ng.org"));
    domains.push(String::from_str("*.kaspa-ng.io"));
    domains.push(String::from_str("*.kaspa.org"));
    domains.push(String::from_str("*.kaspacalc.net"));
    proof {
        assert(domains@.map_values(|s: String| s@) =~= default_domains());
    }
    domains
}

/// Joins domain names with single spaces, as a server-name list.
pub fn flatten(fqdns: &Vec<String>) -> (r: String)
    ensures
        r@ == joined(fqdns@.map_values(|s: String| s@), " "@),
{
    crate::text::join_with(fqdns, " ")
}

} // verus!
