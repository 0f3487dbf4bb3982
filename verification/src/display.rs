//! Display-support arithmetic: the human-readable byte formatter and the
//! line count of the terminal rendering. The terminal drawing itself —
//! colors, bars, escape sequences — is a pure consumer of the snapshot and
//! lives outside the library; these two functions carry the parts of it
//! that are plain computation.
use vstd::prelude::*;
use crate::snapshot::SystemInfo;
use crate::text::{dec_seq, digit_char, u64_to_string};

verus! {

pub const KB: u64 = 1024;

pub const MB: u64 = KB * 1024;

pub const GB: u64 = MB * 1024;

pub const TB: u64 = GB * 1024;

/// `bytes / unit` to one decimal place, rounded to the nearest tenth with
/// ties away from zero: the whole part and the tenths digit.
pub open spec fn scaled_whole(bytes: nat, unit: nat) -> nat {
    let w = bytes / unit;
    let f = (bytes % unit * 10 + unit / 2) / unit;
    if f == 10 {
        w + 1
    } else {
        w
    }
}

pub open spec fn scaled_tenth(bytes: nat, unit: nat) -> nat {
    let f = (bytes % unit * 10 + unit / 2) / unit;
    if f == 10 {
        0
    } else {
        f
    }
}

/// The scaled quantity rendered as `<whole>.<tenth>`.
pub open spec fn scaled_seq(bytes: nat, unit: nat) -> Seq<char> {
    dec_seq(scaled_whole(bytes, unit)) + "."@ + seq![digit_char(scaled_tenth(bytes, unit) as int)]
}

/// `n` spaces.
pub open spec fn spaces(n: int) -> Seq<char>
    decreases n,
{
    if n <= 0 {
        Seq::empty()
    } else {
        spaces(n - 1) + seq![' ']
    }
}

/// `s` padded on the left with spaces to at least `w` characters.
pub open spec fn pad_left(s: Seq<char>, w: int) -> Seq<char> {
    spaces(w - s.len()) + s
}

/// The rendering of a byte count: scaled to the largest binary unit it
/// reaches, one decimal place, right-aligned to six characters, with the
/// unit's suffix; plain counts below one kilobyte keep the trailing space
/// that aligns them with the suffixed forms.
pub open spec fn spec_format_bytes(bytes: nat) -> Seq<char> {
    if bytes >= TB {
        pad_left(scaled_seq(bytes, TB as nat), 6) + " TB"@
    } else if bytes >= GB {
        pad_left(scaled_seq(bytes, GB as nat), 6) + " GB"@
    } else if bytes >= MB {
        pad_left(scaled_seq(bytes, MB as nat), 6) + " MB"@
    } else if bytes >= KB {
        pad_left(scaled_seq(bytes, KB as nat), 6) + " KB"@
    } else {
        pad_left(dec_seq(bytes), 6) + " B "@
    }
}

/// Appends `n` spaces.
#[verifier::loop_isolation(false)]
fn append_spaces(out: &mut String, n: usize)
    ensures
        final(out)@ == old(out)@ + spaces(n as int),
{
    proof {
        assert(out@ + spaces(0) =~= out@);
    }
    let mut k: usize = 0;
    while k < n
        invariant
            k <= n,
            out@ == old(out)@ + spaces(k as int),
        decreases n - k,
    {
        out.append(" ");
        proof {
            reveal_strlit(" ");
            assert(" "@ =~= seq![' ']);
            assert(out@ =~= old(out)@ + spaces(k + 1));
        }
        k += 1;
    }
}

/// Builds `pad_left(body, 6) + suffix` for an already-rendered number.
fn pad6_with_suffix(body: String, suffix: &str) -> (r: String)
    ensures
        r@ == pad_left(body@, 6) + suffix@,
{
    let l = body.as_str().unicode_len();
    let mut out = String::new();
    proof {
        assert(out@ =~= Seq::<char>::empty());
    }
    if l < 6 {
        append_spaces(&mut out, 6 - l);
        proof {
            assert(out@ =~= spaces(6 - body@.len()));
        }
    } else {
        proof {
            assert(out@ =~= spaces(6 - body@.len()));
        }
    }
    out.append(body.as_str());
    out.append(suffix);
    out
}

/// Renders `bytes / unit` to one decimal, rounding to the nearest tenth.
fn scaled_string(bytes: u64, unit: u64) -> (r: String)
    requires
        KB <= unit <= TB,
    ensures
        r@ == scaled_seq(bytes as nat, unit as nat),
{
    let w = bytes / unit;
    let rem = bytes % unit;
    let f = (rem * 10 + unit / 2) / unit;
    proof {
        assert(rem * 10 + unit / 2 <= u64::MAX) by (nonlinear_arith)
            requires rem < unit, KB <= unit <= TB;
        assert(f <= 10) by (nonlinear_arith)
            requires
                rem < unit,
                unit >= KB,
                f as int == ((rem as int) * 10 + (unit as int) / 2) / (unit as int),
        ;
        assert(w < u64::MAX) by (nonlinear_arith)
            requires w == bytes / unit, unit >= KB;
    }
    let (w2, f2): (u64, u64) = if f == 10 {
        (w + 1, 0)
    } else {
        (w, f)
    };
    let mut out = u64_to_string(w2);
    out.append(".");
    let d: &str = if f2 == 0 {
        "0"
    } else if f2 == 1 {
        "1"
    } else if f2 == 2 {
        "2"
    } else if f2 == 3 {
        "3"
    } else if f2 == 4 {
        "4"
    } else if f2 == 5 {
        "5"
    } else if f2 == 6 {
        "6"
    } else if f2 == 7 {
        "7"
    } else if f2 == 8 {
        "8"
    } else {
        "9"
    };
    proof {
        reveal_strlit("0");
        reveal_strlit("1");
        reveal_strlit("2");
        reveal_strlit("3");
        reveal_strlit("4");
        reveal_strlit("5");
        reveal_strlit("6");
        reveal_strlit("7");
        reveal_strlit("8");
        reveal_strlit("9");
        assert(d@ =~= seq![digit_char(f2 as int)]);
    }
    out.append(d);
    proof {
        assert(out@ =~= scaled_seq(bytes as nat, unit as nat));
    }
    out
}

/// Formats a byte count for display: six right-aligned characters and a
/// unit suffix, one decimal place for scaled units.
pub fn format_bytes(bytes: u64) -> (r: String)
    ensures
        r@ == spec_format_bytes(bytes as nat),
{
    if bytes >= TB {
        pad6_with_suffix(scaled_string(bytes, TB), " TB")
    } else if bytes >= GB {
        pad6_with_suffix(scaled_string(bytes, GB), " GB")
    } else if bytes >= MB {
        pad6_with_suffix(scaled_string(bytes, MB), " MB")
    } else if bytes >= KB {
        pad6_with_suffix(scaled_string(bytes, KB), " KB")
    } else {
        pad6_with_suffix(u64_to_string(bytes), " B ")
    }
}

/// The number of terminal lines one rendering of the snapshot occupies:
/// a one-line header, the fixed section headers of the chosen layout, and
/// one line per core, disk and network entry shown.
pub open spec fn spec_display_height(s: SystemInfo, detailed: bool) -> int {
    if detailed {
        11 + s.cpu_cores@.len() as int + s.disks@.len() as int + s.networks@.len() as int
    } else {
        3 + s.disks@.len() as int + s.networks@.len() as int
    }
}

/// Counts the lines the display consumer will draw for this snapshot.
pub fn get_display_height(info: &SystemInfo, detailed: bool) -> (h: usize)
    requires
        info.cpu_cores@.len() + info.disks@.len() + info.networks@.len() + 11 <= usize::MAX,
    ensures
        h == spec_display_height(*info, detailed),
{
    let mut lines: usize = 1;
    if detailed {
        lines += 2;
        lines += info.cpu_cores.len();
        lines += 4;
        lines += 2;
        lines += info.disks.len();
        lines += 2;
        lines += info.networks.len();
    } else {
        lines += 2;
        lines += info.disks.len();
        lines += info.networks.len();
    }
    lines
}

} // verus!
