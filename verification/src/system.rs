//! Host facts: memory, CPU, disk usage and the machine identifier. The
//! surrounding program collects the raw readings; the derivations are
//! verified here.

use vstd::prelude::*;
use crate::text::{all_digits, be_value, dec_value, hex_digits_fixed, split_by, ws_tokens};

verus! {

/// What the host reports about itself.
#[derive(Debug)]
pub struct System {
    pub system_id: Option<u64>,
    pub cpu_physical_cores: Option<usize>,
    pub cpu_frequency: Option<u64>,
    pub cpu_brand: Option<String>,
    pub total_memory: u64,
    pub long_os_version: Option<String>,
    pub disk_usage: Option<DiskUsage>,
}

impl System {
    /// Total memory rounded down to whole gibibytes.
    pub fn ram_as_gb(&self) -> (r: u64)
        ensures
            r == self.total_memory / 1024 / 1024 / 1024,
    {
        self.total_memory / 1024 / 1024 / 1024
    }

    /// The machine identifier as sixteen hexadecimal digits; zero when none
    /// was detected.
    pub fn system_id_as_hex(&self) -> (r: String)
        ensures
            r@ == hex_digits_fixed(
                (match self.system_id {
                    Some(id) => id,
                    None => 0,
                }) as nat,
                16,
            ),
    {
        let id: u64 = match self.system_id {
            Some(id) => id,
            None => 0,
        };
        crate::text::u64_to_hex16(id)
    }
}

/// The machine identifier derived from a machine digest: the big-endian
/// value of its first eight bytes; none when the digest is shorter.
pub fn system_id_from_bytes(digest: &Vec<u8>) -> (r: Option<u64>)
    ensures
        r is Some <==> digest@.len() >= 8,
        r is Some ==> r->0 == be_value(digest@.take(8)),
{
    crate::text::be_u64(digest)
}

/// Disk usage of the volume holding the home folder, in bytes.
#[derive(Clone, Copy, PartialEq, Eq, Structural, Debug)]
pub struct DiskUsage {
    pub total: u64,
    pub used: u64,
    pub available: u64,
}

/// The whitespace-separated fields of the last line of a volume report.
pub open spec fn report_fields(report: Seq<char>) -> Seq<Seq<char>> {
    let lines = split_by(report, '\n');
    ws_tokens(lines[lines.len() - 1])
}

/// Whether a field parses as a kibibyte count whose byte value fits.
pub open spec fn field_parses(t: Seq<char>) -> bool {
    t.len() > 0 && all_digits(t) && dec_value(t) * 1024 <= u64::MAX
}

/// Whether a volume report yields a usage record: its last line must hold
/// at least four fields, of which the second, third and fourth parse.
pub open spec fn report_parses(report: Seq<char>) -> bool {
    report_fields(report).len() >= 4 && field_parses(report_fields(report)[1]) && field_parses(
        report_fields(report)[2],
    ) && field_parses(report_fields(report)[3])
}

/// Parses a `df -k`-style volume report: the second, third and fourth
/// fields of its last line are total, used and available kibibytes.
pub fn disk_usage(report: &str) -> (r: Option<DiskUsage>)
    ensures
        r is Some <==> report_parses(report@),
        r is Some ==> r->0 == (DiskUsage {
            total: (dec_value(report_fields(report@)[1]) * 1024) as u64,
            used: (dec_value(report_fields(report@)[2]) * 1024) as u64,
            available: (dec_value(report_fields(report@)[3]) * 1024) as u64,
        }),
{
    let lines = crate::text::split_char(report, '\n');
    proof {
        crate::text::lemma_split_by_len(report@, '\n');
        assert(lines@.map_values(|p: String| p@).len() == split_by(report@, '\n').len());
        assert(lines@[lines@.len() - 1]@ == split_by(report@, '\n')[split_by(
            report@,
            '\n',
        ).len() - 1]);
    }
    let last = &lines[lines.len() - 1];
    let fields = crate::text::split_whitespace(last.as_str());
    proof {
        assert(fields@.map_values(|p: String| p@) == report_fields(report@));
    }
    if fields.len() < 4 {
        return None;
    }
    proof {
        assert(fields@[1]@ == report_fields(report@)[1]);
        assert(fields@[2]@ == report_fields(report@)[2]);
        assert(fields@[3]@ == report_fields(report@)[3]);
    }
    let total_kib = match crate::text::parse_u64(fields[1].as_str()) {
        Some(v) => v,
        None => {
            return None;
        },
    };
    let used_kib = match crate::text::parse_u64(fields[2].as_str()) {
        Some(v) => v,
        None => {
            return None;
        },
    };
    let available_kib = match crate::text::parse_u64(fields[3].as_str()) {
        Some(v) => v,
        None => {
            return None;
        },
    };
    if total_kib > u64::MAX / 1024 || used_kib > u64::MAX / 1024 || available_kib > u64::MAX
        / 1024 {
        return None;
    }
    Some(
        DiskUsage {
            total: total_kib * 1024,
            used: used_kib * 1024,
            available: available_kib * 1024,
        },
    )
}

} // verus!
