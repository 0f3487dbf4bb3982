//! The JSON rendering of a snapshot. The schema is fixed: an object with
//! `cpuUsagePercent`, a `memory` object, a `disks` array and a `networks`
//! array, the field names stable. Rendering is a pure function of the
//! snapshot, so reading the same snapshot twice yields byte-identical text.
use vstd::prelude::*;
use crate::snapshot::{DiskInfo, MemoryInfo, NetworkInfo, SystemInfo};
use crate::text::{append_centi, append_u64, centi_seq, dec_seq};

verus! {

/// The hexadecimal digit character for a value in `0 ..= 15`.
pub open spec fn hex_char(d: int) -> char {
    if d < 10 {
        crate::text::digit_char(d)
    } else if d == 10 {
        'a'
    } else if d == 11 {
        'b'
    } else if d == 12 {
        'c'
    } else if d == 13 {
        'd'
    } else if d == 14 {
        'e'
    } else {
        'f'
    }
}

fn hex_str(d: u32) -> (s: &'static str)
    requires
        d < 16,
    ensures
        s@ == seq![hex_char(d as int)],
{
    proof {
        reveal_strlit("0");
        reveal_strlit("1");
        reveal_strlit("2");
        reveal_strlit("3");
        reveal_strlit("4");
        reveal_strlit("5");
        reveal_strlit("6");
        reveal_strlit("7");
        reveal_strlit("8");
        reveal_strlit("9");
        reveal_strlit("a");
        reveal_strlit("b");
        reveal_strlit("c");
        reveal_strlit("d");
        reveal_strlit("e");
        reveal_strlit("f");
    }
    let s: &'static str = if d == 0 {
        "0"
    } else if d == 1 {
        "1"
    } else if d == 2 {
        "2"
    } else if d == 3 {
        "3"
    } else if d == 4 {
        "4"
    } else if d == 5 {
        "5"
    } else if d == 6 {
        "6"
    } else if d == 7 {
        "7"
    } else if d == 8 {
        "8"
    } else if d == 9 {
        "9"
    } else if d == 10 {
        "a"
    } else if d == 11 {
        "b"
    } else if d == 12 {
        "c"
    } else if d == 13 {
        "d"
    } else if d == 14 {
        "e"
    } else {
        "f"
    };
    proof {
        assert(s@ =~= seq![hex_char(d as int)]);
    }
    s
}

/// How one character is written inside a JSON string: quote and backslash
/// get a backslash escape, control characters a `\u00XX` escape, everything
/// else stands as itself.
pub open spec fn esc_char(c: char) -> Seq<char> {
    if c == '"' {
        "\\\""@
    } else if c == '\\' {
        "\\\\"@
    } else if (c as u32) < 32 {
        "\\u00"@ + seq![hex_char((c as u32 / 16) as int), hex_char((c as u32 % 16) as int)]
    } else {
        seq![c]
    }
}

/// A whole string escaped for inclusion in a JSON string literal.
pub open spec fn json_escape(s: Seq<char>) -> Seq<char>
    decreases s.len(),
{
    if s.len() == 0 {
        Seq::empty()
    } else {
        esc_char(s[0]) + json_escape(s.drop_first())
    }
}

proof fn lemma_json_escape_push(s: Seq<char>, c: char)
    ensures
        json_escape(s.push(c)) == json_escape(s) + esc_char(c),
    decreases s.len(),
{
    if s.len() == 0 {
        assert(s.push(c)[0] == c);
        assert(s.push(c).drop_first() =~= Seq::<char>::empty());
        assert(json_escape(Seq::<char>::empty()) == Seq::<char>::empty());
        assert(json_escape(s.push(c)) == esc_char(c) + Seq::<char>::empty());
        assert(json_escape(s.push(c)) =~= json_escape(s) + esc_char(c));
    } else {
        assert(s.push(c).drop_first() =~= s.drop_first().push(c));
        lemma_json_escape_push(s.drop_first(), c);
        assert(s.push(c)[0] == s[0]);
        assert(json_escape(s.push(c)) == esc_char(s[0]) + (json_escape(s.drop_first()) + esc_char(
            c,
        )));
        crate::text::lemma_add_assoc(esc_char(s[0]), json_escape(s.drop_first()), esc_char(c));
    }
}

/// Appends `s` escaped for JSON.
#[verifier::loop_isolation(false)]
fn append_escaped(out: &mut String, s: &str)
    ensures
        final(out)@ == old(out)@ + json_escape(s@),
{
    let n = s.unicode_len();
    let mut i: usize = 0;
    proof {
        assert(s@.take(0) =~= Seq::<char>::empty());
        assert(out@ =~= out@ + json_escape(s@.take(0)));
    }
    while i < n
        invariant
            i <= n,
            out@ == old(out)@ + json_escape(s@.take(i as int)),
        decreases n - i,
    {
        proof {
            assert(s@.take(i as int).push(s@[i as int]) =~= s@.take(i + 1));
            lemma_json_escape_push(s@.take(i as int), s@[i as int]);
        }
        let c = s.get_char(i);
        if c == '"' {
            out.append("\\\"");
        } else if c == '\\' {
            out.append("\\\\");
        } else if (c as u32) < 32 {
            out.append("\\u00");
            out.append(hex_str((c as u32) / 16));
            out.append(hex_str((c as u32) % 16));
        } else {
            let one = s.substring_char(i, i + 1);
            proof {
                assert(one@ =~= seq![s@[i as int]]);
            }
            out.append(one);
        }
        proof {
            assert(out@ =~= old(out)@ + json_escape(s@.take(i + 1)));
        }
        i += 1;
    }
    proof {
        assert(s@.take(n as int) =~= s@);
    }
}

/// The memory object's JSON text.
pub open spec fn spec_memory_json(m: MemoryInfo) -> Seq<char> {
    "{\"totalBytes\":"@ + dec_seq(m.total as nat) + ",\"usedBytes\":"@ + dec_seq(m.used as nat)
        + ",\"availableBytes\":"@ + dec_seq(m.available as nat) + ",\"swapTotalBytes\":"@
        + dec_seq(m.swap_total as nat) + ",\"swapUsedBytes\":"@ + dec_seq(m.swap_used as nat)
        + "}"@
}

fn append_memory_json(out: &mut String, m: &MemoryInfo)
    ensures
        final(out)@ == old(out)@ + spec_memory_json(*m),
{
    out.append("{\"totalBytes\":");
    append_u64(out, m.total);
    out.append(",\"usedBytes\":");
    append_u64(out, m.used);
    out.append(",\"availableBytes\":");
    append_u64(out, m.available);
    out.append(",\"swapTotalBytes\":");
    append_u64(out, m.swap_total);
    out.append(",\"swapUsedBytes\":");
    append_u64(out, m.swap_used);
    out.append("}");
    proof {
        assert(out@ =~= old(out)@ + spec_memory_json(*m));
    }
}

/// One disk entry's JSON text.
pub open spec fn spec_disk_json(d: DiskInfo) -> Seq<char> {
    "{\"name\":\""@ + json_escape(d.name@) + "\",\"mountPoint\":\""@ + json_escape(d.mount_point@)
        + "\",\"totalBytes\":"@ + dec_seq(d.total as nat) + ",\"usedBytes\":"@ + dec_seq(
        d.used as nat,
    ) + ",\"availableBytes\":"@ + dec_seq(d.free as nat) + "}"@
}

fn append_disk_json(out: &mut String, d: &DiskInfo)
    ensures
        final(out)@ == old(out)@ + spec_disk_json(*d),
{
    out.append("{\"name\":\"");
    append_escaped(out, d.name.as_str());
    out.append("\",\"mountPoint\":\"");
    append_escaped(out, d.mount_point.as_str());
    out.append("\",\"totalBytes\":");
    append_u64(out, d.total);
    out.append(",\"usedBytes\":");
    append_u64(out, d.used);
    out.append(",\"availableBytes\":");
    append_u64(out, d.free);
    out.append("}");
    proof {
        assert(out@ =~= old(out)@ + spec_disk_json(*d));
    }
}

/// The comma-separated disk entries.
pub open spec fn spec_disks_items(ds: Seq<DiskInfo>) -> Seq<char>
    decreases ds.len(),
{
    if ds.len() == 0 {
        Seq::empty()
    } else if ds.len() == 1 {
        spec_disk_json(ds[0])
    } else {
        spec_disks_items(ds.drop_last()) + ","@ + spec_disk_json(ds.last())
    }
}

/// One network entry's JSON text.
pub open spec fn spec_network_json(n: NetworkInfo) -> Seq<char> {
    "{\"interfaceName\":\""@ + json_escape(n.interface@) + "\",\"ipAddress\":\""@ + json_escape(
        n.ip_address@,
    ) + "\",\"rxBytes\":"@ + dec_seq(n.rx_bytes as nat) + ",\"txBytes\":"@ + dec_seq(
        n.tx_bytes as nat,
    ) + "}"@
}

fn append_network_json(out: &mut String, n: &NetworkInfo)
    ensures
        final(out)@ == old(out)@ + spec_network_json(*n),
{
    out.append("{\"interfaceName\":\"");
    append_escaped(out, n.interface.as_str());
    out.append("\",\"ipAddress\":\"");
    append_escaped(out, n.ip_address.as_str());
    out.append("\",\"rxBytes\":");
    append_u64(out, n.rx_bytes);
    out.append(",\"txBytes\":");
    append_u64(out, n.tx_bytes);
    out.append("}");
    proof {
        assert(out@ =~= old(out)@ + spec_network_json(*n));
    }
}

/// The comma-separated network entries.
pub open spec fn spec_networks_items(ns: Seq<NetworkInfo>) -> Seq<char>
    decreases ns.len(),
{
    if ns.len() == 0 {
        Seq::empty()
    } else if ns.len() == 1 {
        spec_network_json(ns[0])
    } else {
        spec_networks_items(ns.drop_last()) + ","@ + spec_network_json(ns.last())
    }
}

/// The whole snapshot's JSON text.
pub open spec fn spec_snapshot_json(s: SystemInfo) -> Seq<char> {
    "{\"cpuUsagePercent\":"@ + centi_seq(s.global_cpu.usage as nat) + ",\"memory\":"@
        + spec_memory_json(s.memory) + ",\"disks\":["@ + spec_disks_items(s.disks@)
        + "],\"networks\":["@ + spec_networks_items(s.networks@) + "]}"@
}

/// Renders a snapshot as JSON. The output is a function of the snapshot
/// alone: equal snapshots give byte-identical text.
#[verifier::loop_isolation(false)]
pub fn snapshot_json(s: &SystemInfo) -> (r: String)
    ensures
        r@ == spec_snapshot_json(*s),
{
    let mut out = String::from_str("{\"cpuUsagePercent\":");
    append_centi(&mut out, s.global_cpu.usage as u64);
    out.append(",\"memory\":");
    append_memory_json(&mut out, &s.memory);
    out.append(",\"disks\":[");
    let ghost disks_prefix = out@;
    proof {
        assert(disks_prefix + Seq::<char>::empty() =~= disks_prefix);
        assert(spec_disks_items(s.disks@.take(0)) == Seq::<char>::empty());
    }
    let mut i: usize = 0;
    while i < s.disks.len()
        invariant
            i <= s.disks@.len(),
            out@ == disks_prefix + spec_disks_items(s.disks@.take(i as int)),
        decreases s.disks@.len() - i,
    {
        proof {
            assert(s.disks@.take(i + 1).drop_last() =~= s.disks@.take(i as int));
            assert(s.disks@.take(i + 1).last() == s.disks@[i as int]);
            if i == 0 {
                assert(out@ == disks_prefix + spec_disks_items(s.disks@.take(0)));
                assert(disks_prefix + spec_disks_items(s.disks@.take(0)) =~= disks_prefix);
            }
        }
        if i > 0 {
            out.append(",");
            proof {
                crate::text::lemma_add_assoc(
                    disks_prefix,
                    spec_disks_items(s.disks@.take(i as int)),
                    ","@,
                );
            }
        }
        append_disk_json(&mut out, &s.disks[i]);
        proof {
            if i > 0 {
                crate::text::lemma_add_assoc(
                    disks_prefix,
                    spec_disks_items(s.disks@.take(i as int)) + ","@,
                    spec_disk_json(s.disks@[i as int]),
                );
                crate::text::lemma_add_assoc(
                    spec_disks_items(s.disks@.take(i as int)),
                    ","@,
                    spec_disk_json(s.disks@[i as int]),
                );
            }
            assert(out@ == disks_prefix + spec_disks_items(s.disks@.take(i + 1)));
        }
        i += 1;
    }
    proof {
        assert(s.disks@.take(s.disks@.len() as int) =~= s.disks@);
    }
    out.append("],\"networks\":[");
    let ghost nets_prefix = out@;
    proof {
        assert(nets_prefix + Seq::<char>::empty() =~= nets_prefix);
        assert(spec_networks_items(s.networks@.take(0)) == Seq::<char>::empty());
    }
    let mut j: usize = 0;
    while j < s.networks.len()
        invariant
            j <= s.networks@.len(),
            out@ == nets_prefix + spec_networks_items(s.networks@.take(j as int)),
        decreases s.networks@.len() - j,
    {
        proof {
            assert(s.networks@.take(j + 1).drop_last() =~= s.networks@.take(j as int));
            assert(s.networks@.take(j + 1).last() == s.networks@[j as int]);
            if j == 0 {
                assert(out@ == nets_prefix + spec_networks_items(s.networks@.take(0)));
                assert(nets_prefix + spec_networks_items(s.networks@.take(0)) =~= nets_prefix);
            }
        }
        if j > 0 {
            out.append(",");
            proof {
                crate::text::lemma_add_assoc(
                    nets_prefix,
                    spec_networks_items(s.networks@.take(j as int)),
                    ","@,
                );
            }
        }
        append_network_json(&mut out, &s.networks[j]);
        proof {
            if j > 0 {
                crate::text::lemma_add_assoc(
                    nets_prefix,
                    spec_networks_items(s.networks@.take(j as int)) + ","@,
                    spec_network_json(s.networks@[j as int]),
                );
                crate::text::lemma_add_assoc(
                    spec_networks_items(s.networks@.take(j as int)),
                    ","@,
                    spec_network_json(s.networks@[j as int]),
                );
            }
            assert(out@ == nets_prefix + spec_networks_items(s.networks@.take(j + 1)));
        }
        j += 1;
    }
    proof {
        assert(s.networks@.take(s.networks@.len() as int) =~= s.networks@);
    }
    out.append("]}");
    out
}

/// Two renderings of the same snapshot are byte-identical: the read path is
/// idempotent as long as no refresh intervenes.
pub proof fn lemma_json_read_idempotent(s: SystemInfo, r1: Seq<char>, r2: Seq<char>)
    requires
        r1 == spec_snapshot_json(s),
        r2 == spec_snapshot_json(s),
    ensures
        r1 == r2,
{
}

} // verus!
