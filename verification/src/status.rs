//! Status rendering and conflict checks. Querying the init system, the
//! public address and the process list is the surrounding program's job;
//! it hands the readings in as plain values.

use vstd::prelude::*;
use crate::content::{content_text, Content, ContentView};
use crate::service::ServiceDetail;
use crate::system::System;
use crate::text::{contains_seq, hex_digits_fixed, matches_at};

verus! {

/// A snapshot of the host for the status screen: the public address, the
/// host facts, and each enabled service beside its unit state summary
/// (`Ok` for a healthy unit, `Err` with the raw state otherwise).
#[derive(Debug)]
pub struct Status {
    pub ip: Option<String>,
    pub system: System,
    pub services: Vec<(ServiceDetail, core::result::Result<String, String>)>,
}

/// The status rows that follow the host-fact rows: the machine id, the
/// public address, a rule, and one row per service with its state, plus
/// one per origin.
pub open spec fn status_rows(
    system_id: Option<u64>,
    ip: Option<Seq<char>>,
    services: Seq<(ServiceDetail, core::result::Result<String, String>)>,
) -> Seq<ContentView> {
    seq![
        ContentView::Separator,
        ContentView::Field(
            "System id:"@,
            match system_id {
                Some(id) => hex_digits_fixed(id as nat, 16),
                None => "N/A"@,
            },
        ),
        ContentView::Field(
            "Public ip:"@,
            match ip {
                Some(address) => address,
                None => "N/A"@,
            },
        ),
        ContentView::Separator,
    ] + service_rows(services)
}

/// One row per service: its caption and name beside the unit state, and,
/// when the service is built from a source origin, a second row naming
/// the origin's checkout folder.
pub open spec fn service_rows(
    services: Seq<(ServiceDetail, core::result::Result<String, String>)>,
) -> Seq<ContentView>
    decreases services.len(),
{
    if services.len() == 0 {
        Seq::empty()
    } else {
        service_rows(services.drop_last()) + rows_for(services.last())
    }
}

/// The rows of one service entry.
pub open spec fn rows_for(entry: (ServiceDetail, core::result::Result<String, String>)) -> Seq<
    ContentView,
> {
    seq![
        ContentView::Field(
            entry.0@.caption + " ("@ + entry.0@.name + ")"@,
            match entry.1 {
                Ok(state) => state@,
                Err(state) => state@,
            },
        ),
    ] + (match entry.0@.origin {
        Some(o) => seq![
            ContentView::Field(
                ""@,
                o.owner + "/"@ + (match o.branch {
                    Some(b) => b,
                    None => "master"@,
                }),
            ),
        ],
        None => Seq::empty(),
    })
}

/// The public address as a character sequence, when one was detected.
pub open spec fn ip_view(s: &Status) -> Option<Seq<char>> {
    match s.ip {
        Some(address) => Some(address@),
        None => None,
    }
}

impl Status {
    /// The rows of the status screen after the given host-fact rows.
    pub fn rows(&self, system_rows: Vec<Content>) -> (r: Vec<Content>)
        ensures
            r@.map_values(|c: Content| c@) == system_rows@.map_values(|c: Content| c@)
                + status_rows(self.system.system_id, ip_view(self), self.services@),
    {
        let mut rows = system_rows;
        let ghost prefix = rows@.map_values(|c: Content| c@);
        rows.push(Content::separator());
        let id_text = match self.system.system_id {
            Some(_) => self.system.system_id_as_hex(),
            None => String::from_str("N/A"),
        };
        rows.push(Content::field(String::from_str("System id:"), id_text));
        let ip_text = match &self.ip {
            Some(address) => address.clone(),
            None => String::from_str("N/A"),
        };
        rows.push(Content::field(String::from_str("Public ip:"), ip_text));
        rows.push(Content::separator());
        let ghost header = status_rows(self.system.system_id, ip_view(self), self.services@);
        proof {
            assert(self.services@.take(0) =~= Seq::<
                (ServiceDetail, core::result::Result<String, String>),
            >::empty());
            assert(rows@.map_values(|c: Content| c@) =~~= prefix + (header.take(4) + service_rows(
                self.services@.take(0),
            )));
        }
        let mut i: usize = 0;
        while i < self.services.len()
            invariant
                i <= self.services@.len(),
                header == status_rows(self.system.system_id, ip_view(self), self.services@),
                rows@.map_values(|c: Content| c@) =~= prefix + (header.take(4) + service_rows(
                    self.services@.take(i as int),
                )),
            decreases self.services@.len() - i,
        {
            let entry = &self.services[i];
            let caption = entry.0.render();
            let state = match &entry.1 {
                Ok(state) => state.clone(),
                Err(state) => state.clone(),
            };
            let ghost before = rows@.map_values(|c: Content| c@);
            let ghost state_view = state@;
            rows.push(Content::field(caption, state));
            proof {
                assert(rows@.map_values(|c: Content| c@) =~~= before + seq![
                    ContentView::Field(
                        self.services@[i as int].0@.caption + " ("@
                            + self.services@[i as int].0@.name + ")"@,
                        state_view,
                    ),
                ]);
            }
            let ghost mid = rows@.map_values(|c: Content| c@);
            match &entry.0.origin {
                Some(o) => {
                    rows.push(Content::field(String::new(), o.folder()));
                    proof {
                        reveal_strlit("");
                        assert((""@) =~= Seq::<char>::empty());
                        assert(rows@.map_values(|c: Content| c@) =~~= mid + seq![
                            ContentView::Field(
                                ""@,
                                o@.owner + "/"@ + (match o@.branch {
                                    Some(b) => b,
                                    None => "master"@,
                                }),
                            ),
                        ]);
                    }
                },
                None => {},
            }
            proof {
                assert(self.services@.take(i as int + 1).drop_last() =~= self.services@.take(
                    i as int,
                ));
                assert(self.services@.take(i as int + 1).last() == self.services@[i as int]);
                assert(rows@.map_values(|c: Content| c@) =~~= before + rows_for(
                    self.services@[i as int],
                ));
                assert(rows@.map_values(|c: Content| c@) =~~= prefix + (header.take(4)
                    + service_rows(self.services@.take(i as int + 1))));
            }
            i = i + 1;
        }
        proof {
            assert(self.services@.take(self.services@.len() as int) =~= self.services@);
            assert(header.take(4) + service_rows(self.services@) =~= header);
        }
        rows
    }

    /// Renders the status screen: the given host-fact rows, then the
    /// identity rows and one row per service, as an aligned block.
    pub fn render(&self, system_rows: Vec<Content>) -> (r: String)
        ensures
            ({
                let rows = system_rows@.map_values(|c: Content| c@) + status_rows(
                    self.system.system_id,
                    ip_view(self),
                    self.services@,
                );
                crate::content::title_width(rows) + crate::content::value_width(rows) + 1
                    <= usize::MAX ==> r@ == content_text(rows) + "\n"@
            }),
    {
        let rows = self.rows(system_rows);
        let (tw, vw) = widths(&rows);
        if tw <= usize::MAX - 1 && vw <= usize::MAX - 1 - tw {
            let mut out = crate::content::content(&rows);
            out.append("\n");
            out
        } else {
            String::new()
        }
    }
}

fn widths(rows: &Vec<Content>) -> (r: (usize, usize))
    ensures
        r.0 == crate::content::title_width(rows@.map_values(|c: Content| c@)),
        r.1 == crate::content::value_width(rows@.map_values(|c: Content| c@)),
{
    let ghost views = rows@.map_values(|c: Content| c@);
    let mut tw: usize = 0;
    let mut vw: usize = 0;
    let mut i: usize = 0;
    proof {
        assert(views.take(0) =~= Seq::<ContentView>::empty());
    }
    while i < rows.len()
        invariant
            i <= rows@.len(),
            views == rows@.map_values(|c: Content| c@),
            tw == crate::content::title_width(views.take(i as int)),
            vw == crate::content::value_width(views.take(i as int)),
        decreases rows@.len() - i,
    {
        let (k_len, v_len) = rows[i].length();
        proof {
            assert(views.take(i as int + 1).drop_last() =~= views.take(i as int));
            assert(views.take(i as int + 1).last() == views[i as int]);
        }
        if k_len > tw {
            tw = k_len;
        }
        if v_len > vw {
            vw = v_len;
        }
        i = i + 1;
    }
    proof {
        assert(views.take(views.len() as int) =~= views);
    }
    (tw, vw)
}

/// A detected problem on the host: one the operator should look at, or
/// one that stops the tool.
#[derive(Debug)]
pub enum Conflict {
    Warning(String),
    Error(String),
}

impl Conflict {
    /// A conflict the operator should look at.
    pub fn warning(msg: String) -> (r: Conflict)
        ensures
            r == Conflict::Warning(msg),
    {
        Conflict::Warning(msg)
    }

    /// A conflict that stops the tool.
    pub fn error(msg: String) -> (r: Conflict)
        ensures
            r == Conflict::Error(msg),
    {
        Conflict::Error(msg)
    }

    /// The conflict's message.
    pub fn message(&self) -> (r: &String)
        ensures
            (match self {
                Conflict::Warning(m) => r@ == m@,
                Conflict::Error(m) => r@ == m@,
            }),
    {
        match self {
            Conflict::Warning(m) => m,
            Conflict::Error(m) => m,
        }
    }
}

/// Whether a running process path is a conflicting node-software binary
/// from outside the tool's own root folder.
pub fn is_conflicting_path(path: &str, root: &str) -> (r: bool)
    ensures
        r == ((contains_seq(path@, "kaspad"@) || contains_seq(path@, "kaspa-ng"@) || contains_seq(
            path@,
            "kaspa-resolver"@,
        ) || contains_seq(path@, "sparkled"@)) && !(root@.len() <= path@.len() && matches_at(
            path@,
            root@,
            0,
        ))),
{
    let node_like = crate::text::contains_str(path, "kaspad") || crate::text::contains_str(
        path,
        "kaspa-ng",
    ) || crate::text::contains_str(path, "kaspa-resolver") || crate::text::contains_str(
        path,
        "sparkled",
    );
    if !node_like {
        return false;
    }
    let root_len = root.unicode_len();
    let path_len = path.unicode_len();
    let under_root = if root_len <= path_len {
        crate::text::has_match_at(path, root, 0)
    } else {
        false
    };
    !under_root
}

} // verus!
