//! Configuration data, as plain validated values.
//!
//! The configuration is constructed once at startup — from a file, by the
//! surrounding application — and threaded through constructors by
//! reference; there is no process-wide singleton.  The listen-address
//! parser turns the textual `a.b.c.d:port` form into numbers, rejecting
//! anything else.

use vstd::prelude::*;

use crate::text::{parse_u16_dec, parse_u8_dec, spec_parse_u16_dec, spec_parse_u8_dec};

verus! {

/// Identity captured at build time, filled in by the application shell.
pub struct Build {
    pub name: String,
    pub version: String,
}

impl Default for Build {
    /// Placeholder identity: empty name and version.
    fn default() -> (r: Build)
        ensures
            r.name@ == Seq::<char>::empty(),
            r.version@ == Seq::<char>::empty(),
    {
        Build { name: String::new(), version: String::new() }
    }
}

/// One solar charge controller entry: the serial port to open, or none for
/// a loopback device.
pub struct Mppt {
    pub port: Option<String>,
    pub loopback: Option<bool>,
}

/// One inertial sensor entry: the I2C device to open, or none for loopback.
pub struct Imu {
    pub port: Option<String>,
    pub loopback: Option<bool>,
}

/// The hardware section: named device entries, in file order.
pub struct Hardware {
    pub imu: Vec<(String, Imu)>,
    pub mppt: Vec<(String, Mppt)>,
}

/// A parsed listen address: four dotted octets and a port.
#[derive(Clone, Copy, Debug, PartialEq, Eq, Structural)]
pub struct ListenAddr {
    pub ip0: u8,
    pub ip1: u8,
    pub ip2: u8,
    pub ip3: u8,
    pub port: u16,
}

/// The web server section.
pub struct Web {
    /// Path to the static files.
    pub static_path: String,
    /// Server listen address.
    pub listen_addr: ListenAddr,
    /// Update interval, in milliseconds.
    pub update_interval: u64,
}

/// The whole configuration.
pub struct Config {
    pub build: Build,
    pub hardware: Hardware,
    pub web: Web,
}

/// Index of the first occurrence of `b` in `s`, or `s.len()` if absent.
pub open spec fn spec_find(s: Seq<u8>, b: u8) -> int
    decreases s.len(),
{
    if s.len() == 0 {
        0
    } else if s[0] == b {
        0
    } else {
        1 + spec_find(s.skip(1), b)
    }
}

proof fn lemma_find_at(s: Seq<u8>, b: u8, i: int)
    requires
        0 <= i <= s.len(),
        forall|j: int| 0 <= j < i ==> s[j] != b,
        i < s.len() ==> s[i] == b,
    ensures
        spec_find(s, b) == i,
    decreases i,
{
    if s.len() == 0 {
    } else if i == 0 {
    } else {
        assert(s[0] != b);
        assert(forall|j: int| 0 <= j < i - 1 ==> s.skip(1)[j] != b) by {
            assert forall|j: int| 0 <= j < i - 1 implies s.skip(1)[j] != b by {
                assert(s.skip(1)[j] == s[j + 1]);
            }
        }
        assert(i - 1 < s.skip(1).len() ==> s.skip(1)[i - 1] == b);
        lemma_find_at(s.skip(1), b, i - 1);
    }
}

/// Executable counterpart of `spec_find`: the index of the first `b`, or
/// the slice's length when `b` does not occur.
fn find_byte(s: &[u8], b: u8) -> (r: usize)
    ensures
        r == spec_find(s@, b),
        r <= s@.len(),
        r < s@.len() ==> s@[r as int] == b,
        forall|j: int| 0 <= j < r ==> s@[j] != b,
{
    let mut i: usize = 0;
    while i < s.len()
        invariant
            i <= s@.len(),
            forall|j: int| 0 <= j < i ==> s@[j] != b,
        decreases s@.len() - i,
    {
        if s[i] == b {
            proof {
                lemma_find_at(s@, b, i as int);
            }
            return i;
        }
        i = i + 1;
    }
    proof {
        lemma_find_at(s@, b, s@.len() as int);
    }
    i
}

/// The dotted-quad reading of `t`: exactly four `.`-separated decimal
/// octets.
pub open spec fn spec_parse_ip(t: Seq<u8>) -> Option<(u8, u8, u8, u8)> {
    let a = spec_find(t, 46);
    if a == t.len() {
        None
    } else {
        let r1 = t.skip(a + 1);
        let b = spec_find(r1, 46);
        if b == r1.len() {
            None
        } else {
            let r2 = r1.skip(b + 1);
            let c = spec_find(r2, 46);
            if c == r2.len() {
                None
            } else {
                let r3 = r2.skip(c + 1);
                if spec_find(r3, 46) != r3.len() {
                    None
                } else {
                    match (
                        spec_parse_u8_dec(t.take(a)),
                        spec_parse_u8_dec(r1.take(b)),
                        spec_parse_u8_dec(r2.take(c)),
                        spec_parse_u8_dec(r3),
                    ) {
                        (Some(o1), Some(o2), Some(o3), Some(o4)) => Some((o1, o2, o3, o4)),
                        _ => None,
                    }
                }
            }
        }
    }
}

/// The reading of `s` as `a.b.c.d:port`: exactly one colon, a dotted quad
/// before it, a decimal port after it; anything else is rejected.
pub open spec fn spec_parse_listen_addr(s: Seq<u8>) -> Option<ListenAddr> {
    let i = spec_find(s, 58);
    if i == s.len() {
        None
    } else {
        let rest = s.skip(i + 1);
        if spec_find(rest, 58) != rest.len() {
            None
        } else {
            match (spec_parse_ip(s.take(i)), spec_parse_u16_dec(rest)) {
                (Some(ip), Some(port)) => Some(
                    ListenAddr { ip0: ip.0, ip1: ip.1, ip2: ip.2, ip3: ip.3, port },
                ),
                _ => None,
            }
        }
    }
}

/// Parses the dotted-quad part of a listen address.
fn parse_ip(t: &[u8]) -> (r: Option<(u8, u8, u8, u8)>)
    ensures
        r == spec_parse_ip(t@),
{
    let a = find_byte(t, 46);
    if a == t.len() {
        return None;
    }
    let r1: &[u8] = &t[a + 1..t.len()];
    proof {
        assert(r1@ =~= t@.skip(a + 1));
    }
    let b = find_byte(r1, 46);
    if b == r1.len() {
        return None;
    }
    let r2: &[u8] = &r1[b + 1..r1.len()];
    proof {
        assert(r2@ =~= r1@.skip(b + 1));
    }
    let c = find_byte(r2, 46);
    if c == r2.len() {
        return None;
    }
    let r3: &[u8] = &r2[c + 1..r2.len()];
    proof {
        assert(r3@ =~= r2@.skip(c + 1));
    }
    if find_byte(r3, 46) != r3.len() {
        return None;
    }
    let p1: &[u8] = &t[0..a];
    let p2: &[u8] = &r1[0..b];
    let p3: &[u8] = &r2[0..c];
    proof {
        assert(p1@ =~= t@.take(a as int));
        assert(p2@ =~= r1@.take(b as int));
        assert(p3@ =~= r2@.take(c as int));
    }
    match (parse_u8_dec(p1), parse_u8_dec(p2), parse_u8_dec(p3), parse_u8_dec(r3)) {
        (Some(o1), Some(o2), Some(o3), Some(o4)) => Some((o1, o2, o3, o4)),
        _ => None,
    }
}

/// Parses a textual listen address `a.b.c.d:port`.
pub fn parse_listen_addr(s: &[u8]) -> (r: Option<ListenAddr>)
    ensures
        r == spec_parse_listen_addr(s@),
{
    let i = find_byte(s, 58);
    if i == s.len() {
        return None;
    }
    let rest: &[u8] = &s[i + 1..s.len()];
    proof {
        assert(rest@ =~= s@.skip(i + 1));
    }
    if find_byte(rest, 58) != rest.len() {
        return None;
    }
    let head: &[u8] = &s[0..i];
    proof {
        assert(head@ =~= s@.take(i as int));
    }
    match (parse_ip(head), parse_u16_dec(rest)) {
        (Some(ip), Some(port)) => Some(
            ListenAddr { ip0: ip.0, ip1: ip.1, ip2: ip.2, ip3: ip.3, port },
        ),
        _ => None,
    }
}

} // verus!
