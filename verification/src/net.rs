//! Network-interface logic: the deny-list filter that keeps loopback and
//! virtual interfaces out of a snapshot, and the parser that extracts an IPv4
//! address from the text that the host's `ip addr show` utility prints. The
//! shell-out itself is performed by the unverified shell around the library,
//! which hands the captured text in here.
use vstd::prelude::*;
use crate::text::{
    contains_seq, contains_str, find_char, idx_from, lemma_idx_from, lemma_tok_end, lemma_ws_end,
    skip_token, skip_ws, spec_trim, starts_with, str_starts_with, tok_end, trim_str, ws_end,
};

verus! {

/// An interface name that does not belong to the loopback, virtual-ethernet,
/// bridge, tunnel or virtual-NIC families.
pub open spec fn valid_interface(s: Seq<char>) -> bool {
    &&& !starts_with(s, "lo"@)
    &&& !starts_with(s, "veth"@)
    &&& !starts_with(s, "flannel"@)
    &&& !starts_with(s, "docker"@)
    &&& !starts_with(s, "br-"@)
    &&& !starts_with(s, "vxlan"@)
    &&& !starts_with(s, "cni"@)
    &&& !starts_with(s, "tun"@)
    &&& !starts_with(s, "tap"@)
    &&& !starts_with(s, "virbr"@)
}

/// Filters out virtual and container interfaces by name prefix.
pub fn is_valid_interface(interface: &str) -> (r: bool)
    ensures
        r == valid_interface(interface@),
{
    !str_starts_with(interface, "lo") && !str_starts_with(interface, "veth")
        && !str_starts_with(interface, "flannel") && !str_starts_with(interface, "docker")
        && !str_starts_with(interface, "br-") && !str_starts_with(interface, "vxlan")
        && !str_starts_with(interface, "cni") && !str_starts_with(interface, "tun")
        && !str_starts_with(interface, "tap") && !str_starts_with(interface, "virbr")
}

/// The IPv4 address one line of `ip addr show` output yields, if any: the
/// trimmed line must start with `inet ` and not mention `scope host`; the
/// address is the following token, cut at the subnet mask's `/`; loopback
/// addresses (prefix `127.`) are rejected.
pub open spec fn spec_line_ip(line: Seq<char>) -> Option<Seq<char>> {
    let t = spec_trim(line);
    if starts_with(t, "inet "@) && !contains_seq(t, "scope host"@) {
        let j0 = ws_end(t, 4);
        if j0 < t.len() {
            let tok = t.subrange(j0, tok_end(t, j0));
            let ip = tok.take(idx_from(tok, 0, '/'));
            if !starts_with(ip, "127."@) {
                Some(ip)
            } else {
                None
            }
        } else {
            None
        }
    } else {
        None
    }
}

/// Extracts the address from one line, per [`spec_line_ip`].
fn line_ip(line: &str) -> (r: Option<String>)
    ensures
        r is Some <==> spec_line_ip(line@) is Some,
        r matches Some(ip) ==> spec_line_ip(line@) == Some(ip@),
{
    let t = trim_str(line);
    if !str_starts_with(t, "inet ") {
        return None;
    }
    if contains_str(t, "scope host") {
        return None;
    }
    let tl = t.unicode_len();
    proof {
        reveal_strlit("inet ");
        assert(t@.len() >= 5);
        lemma_ws_end(t@, 4);
    }
    let j0 = skip_ws(t, 4);
    if j0 == tl {
        return None;
    }
    proof {
        lemma_tok_end(t@, j0 as int);
    }
    let j1 = skip_token(t, j0);
    let tok = t.substring_char(j0, j1);
    proof {
        lemma_idx_from(tok@, 0, '/');
    }
    let k = find_char(tok, 0, '/');
    let ip = tok.substring_char(0, k);
    proof {
        assert(ip@ =~= tok@.take(idx_from(tok@, 0, '/')));
    }
    if str_starts_with(ip, "127.") {
        return None;
    }
    Some(String::from_str(ip))
}

/// The IPv4 address that a whole `ip addr show` output yields: the first line
/// that yields one, scanning the lines in order.
pub open spec fn spec_parse_ip(s: Seq<char>) -> Option<Seq<char>>
    decreases s.len(),
    via spec_parse_ip_decreases
{
    let n = idx_from(s, 0, '\n');
    if spec_line_ip(s.take(n)) is Some {
        spec_line_ip(s.take(n))
    } else if n >= s.len() {
        None
    } else {
        spec_parse_ip(s.skip(n + 1))
    }
}

#[via_fn]
proof fn spec_parse_ip_decreases(s: Seq<char>) {
    lemma_idx_from(s, 0, '\n');
}

/// Parses the captured output of the host's `ip addr show <interface>` and
/// returns the interface's first non-loopback IPv4 address, if it has one.
#[verifier::loop_isolation(false)]
pub fn parse_interface_ip(s: &str) -> (r: Option<String>)
    ensures
        r is Some <==> spec_parse_ip(s@) is Some,
        r matches Some(ip) ==> spec_parse_ip(s@) == Some(ip@),
{
    let mut rest: &str = s;
    loop
        invariant
            spec_parse_ip(rest@) == spec_parse_ip(s@),
        decreases rest@.len(),
    {
        let rl = rest.unicode_len();
        proof {
            lemma_idx_from(rest@, 0, '\n');
        }
        let n = find_char(rest, 0, '\n');
        let line = rest.substring_char(0, n);
        proof {
            assert(line@ =~= rest@.take(n as int));
        }
        let got = line_ip(line);
        if got.is_some() {
            return got;
        }
        if n == rl {
            return None;
        }
        let next: &str = rest.substring_char(n + 1, rl);
        proof {
            assert(next@ =~= rest@.skip(n + 1));
        }
        rest = next;
    }
}

} // verus!
