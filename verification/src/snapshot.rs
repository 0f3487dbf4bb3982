//! The snapshot data model and its construction. A snapshot is one complete,
//! internally consistent sample of the host's resources, built here from the
//! plain counters that the unverified probe hands in: CPU usages, sensor
//! readings, memory and swap sizes in kilobytes, per-disk space, and per
//! interface the cumulative byte counters together with the captured address
//! text. Fractional quantities carry no floats: CPU usage and temperatures
//! are held in hundredths (of a percent, of a degree).
use vstd::prelude::*;
use crate::net::{is_valid_interface, parse_interface_ip, spec_parse_ip, valid_interface};
use crate::text::{
    all_digits, contains_seq, dec_value, is_digit, is_ws, lemma_trim_end, matches_at,
    spec_parse_usize, parse_usize, trim_end,
};

verus! {

/// One CPU's share of work, in hundredths of a percent, with an optional
/// temperature in hundredths of a degree Celsius.
#[derive(Clone, Copy, Debug)]
pub struct CpuInfo {
    pub usage: u32,
    pub idle: u32,
    pub temperature: Option<i64>,
}

/// Memory and swap occupancy, in bytes.
#[derive(Clone, Copy, Debug)]
pub struct MemoryInfo {
    pub total: u64,
    pub used: u64,
    pub free: u64,
    pub available: u64,
    pub swap_total: u64,
    pub swap_used: u64,
    pub swap_free: u64,
}

/// One mounted disk's space, in bytes.
#[derive(Clone, Debug)]
pub struct DiskInfo {
    pub name: String,
    pub mount_point: String,
    pub total: u64,
    pub used: u64,
    pub free: u64,
}

/// One active network interface: its name, its IPv4 address, and the
/// cumulative received and transmitted byte counters since boot.
#[derive(Clone, Debug)]
pub struct NetworkInfo {
    pub interface: String,
    pub ip_address: String,
    pub rx_bytes: u64,
    pub tx_bytes: u64,
}

/// One complete sample of all tracked resource metrics.
#[derive(Clone, Debug)]
pub struct SystemInfo {
    pub global_cpu: CpuInfo,
    pub cpu_cores: Vec<CpuInfo>,
    pub memory: MemoryInfo,
    pub disks: Vec<DiskInfo>,
    pub networks: Vec<NetworkInfo>,
}

/// Raw memory counters as the probe reports them, in kilobytes.
#[derive(Clone, Copy, Debug)]
pub struct RawMemory {
    pub total_kb: u64,
    pub used_kb: u64,
    pub free_kb: u64,
    pub available_kb: u64,
    pub swap_total_kb: u64,
    pub swap_used_kb: u64,
}

/// A temperature sensor as the probe reports it: its label text and its
/// reading in hundredths of a degree Celsius.
#[derive(Clone, Debug)]
pub struct RawComponent {
    pub label: String,
    pub temperature: i64,
}

/// One disk as the probe reports it: total and available space in bytes.
#[derive(Clone, Debug)]
pub struct RawDisk {
    pub name: String,
    pub mount_point: String,
    pub total: u64,
    pub available: u64,
}

/// One interface as the probe reports it, together with the text that the
/// host's `ip addr show <interface>` printed for it (empty if that failed).
#[derive(Clone, Debug)]
pub struct RawNetwork {
    pub interface: String,
    pub rx_bytes: u64,
    pub tx_bytes: u64,
    pub ip_text: String,
}

/// Everything one probe pass yields.
#[derive(Clone, Debug)]
pub struct RawSample {
    pub global_cpu_usage: u32,
    pub core_usages: Vec<u32>,
    pub components: Vec<RawComponent>,
    pub memory: RawMemory,
    pub disks: Vec<RawDisk>,
    pub networks: Vec<RawNetwork>,
}

// ---------------------------------------------------------------------------
// Well-formedness: the invariants every published snapshot satisfies.
// ---------------------------------------------------------------------------

pub open spec fn memory_wf(m: MemoryInfo) -> bool {
    &&& m.used <= m.total
    &&& m.swap_used <= m.swap_total
    &&& m.swap_free == m.swap_total - m.swap_used
}

pub open spec fn disk_wf(d: DiskInfo) -> bool {
    &&& d.used <= d.total
    &&& d.used + d.free == d.total
}

/// The placeholder entry published when no interface qualifies, so that "no
/// data sampled" stays distinguishable from an empty result.
pub open spec fn is_sentinel_net(n: NetworkInfo) -> bool {
    &&& n.interface@ == "N/A"@
    &&& n.ip_address@ == "N/A"@
    &&& n.rx_bytes == 0
    &&& n.tx_bytes == 0
}

/// The network sequence is never empty: either every entry passed the
/// non-virtual filter, or it is exactly the sentinel entry.
pub open spec fn networks_wf(nets: Seq<NetworkInfo>) -> bool {
    &&& nets.len() > 0
    &&& ((forall|i: int|
        0 <= i < nets.len() ==> valid_interface(#[trigger] nets[i].interface@)) || (nets.len() == 1
        && is_sentinel_net(nets[0])))
}

pub open spec fn snapshot_wf(s: SystemInfo) -> bool {
    &&& memory_wf(s.memory)
    &&& forall|i: int| 0 <= i < s.disks@.len() ==> disk_wf(#[trigger] s.disks@[i])
    &&& networks_wf(s.networks@)
}

// ---------------------------------------------------------------------------
// CPU.
// ---------------------------------------------------------------------------

/// The idle share belonging to a usage of `u` hundredths of a percent,
/// floored at zero.
pub open spec fn idle_of(u: int) -> int {
    if u <= 10000 {
        10000 - u
    } else {
        0
    }
}

/// A core's entry before any temperature has been attached.
pub fn build_cpu(usage: u32) -> (c: CpuInfo)
    ensures
        c.usage == usage,
        c.idle == idle_of(usage as int),
        c.temperature is None,
{
    let idle: u32 = if usage <= 10000 {
        10000 - usage
    } else {
        0
    };
    CpuInfo { usage, idle, temperature: None }
}

/// One entry per core, temperatures still unassigned.
#[verifier::loop_isolation(false)]
pub fn build_cpu_cores(usages: &Vec<u32>) -> (cores: Vec<CpuInfo>)
    ensures
        cores@.len() == usages@.len(),
        forall|i: int|
            0 <= i < usages@.len() ==> {
                &&& (#[trigger] cores@[i]).usage == usages@[i]
                &&& cores@[i].idle == idle_of(usages@[i] as int)
                &&& cores@[i].temperature is None
            },
{
    let mut cores: Vec<CpuInfo> = Vec::new();
    let mut i: usize = 0;
    while i < usages.len()
        invariant
            i <= usages@.len(),
            cores@.len() == i,
            forall|j: int|
                0 <= j < i ==> {
                    &&& (#[trigger] cores@[j]).usage == usages@[j]
                    &&& cores@[j].idle == idle_of(usages@[j] as int)
                    &&& cores@[j].temperature is None
                },
        decreases usages@.len() - i,
    {
        cores.push(build_cpu(usages[i]));
        i += 1;
    }
    cores
}

// ---------------------------------------------------------------------------
// Temperature sensors: matching labels to cores.
// ---------------------------------------------------------------------------

/// ASCII lowercasing of one character; other characters are unchanged.
pub open spec fn lower_char(c: char) -> char {
    if 'A' <= c && c <= 'Z' {
        (((c as u8) + 32) as char)
    } else {
        c
    }
}

pub open spec fn ascii_lower(s: Seq<char>) -> Seq<char> {
    s.map_values(|c: char| lower_char(c))
}

/// Executable counterpart of [`lower_char`].
fn lower_char_exec(c: char) -> (r: char)
    ensures
        r == lower_char(c),
{
    if c >= 'A' && c <= 'Z' {
        ((c as u8) + 32) as char
    } else {
        c
    }
}

/// Does `sub` occur in the ASCII-lowercased `s`? (`sub` itself is taken as
/// written.)
#[verifier::loop_isolation(false)]
pub fn contains_lower(s: &str, sub: &str) -> (r: bool)
    ensures
        r == contains_seq(ascii_lower(s@), sub@),
{
    let sl = s.unicode_len();
    let subl = sub.unicode_len();
    if subl > sl {
        return false;
    }
    if subl == 0 {
        proof {
            assert(ascii_lower(s@).subrange(0, 0) =~= sub@);
            assert(matches_at(ascii_lower(s@), 0, sub@));
        }
        return true;
    }
    let bound = sl - subl;
    let mut i: usize = 0;
    while i <= bound
        invariant
            1 <= subl <= sl,
            bound == sl - subl,
            i <= bound + 1,
            forall|k: int| 0 <= k < i ==> !matches_at(ascii_lower(s@), k, sub@),
        decreases bound + 1 - i,
    {
        let mut j: usize = 0;
        let mut hit = true;
        while j < subl
            invariant
                j <= subl,
                i <= bound,
                bound == sl - subl,
                subl <= sl,
                hit ==> forall|m: int| 0 <= m < j ==> ascii_lower(s@)[i + m] == sub@[m],
                !hit ==> !matches_at(ascii_lower(s@), i as int, sub@),
            decreases subl - j,
        {
            if lower_char_exec(s.get_char(i + j)) != sub.get_char(j) {
                hit = false;
                proof {
                    assert(ascii_lower(s@).subrange(i as int, i + sub@.len())[j as int]
                        != sub@[j as int]);
                    assert(!matches_at(ascii_lower(s@), i as int, sub@));
                }
                j = subl;
            } else {
                j += 1;
            }
        }
        if hit {
            proof {
                assert(ascii_lower(s@).subrange(i as int, i + sub@.len()) =~= sub@);
                assert(matches_at(ascii_lower(s@), i as int, sub@));
            }
            return true;
        }
        proof {
            assert(!matches_at(ascii_lower(s@), i as int, sub@));
        }
        i += 1;
    }
    proof {
        assert forall|k: int| !matches_at(ascii_lower(s@), k, sub@) by {
            if 0 <= k && k + sub@.len() <= s@.len() {
                assert(k < i);
            }
        }
    }
    false
}

/// The start of the token that ends at `e`: the least position from which
/// every character up to `e` is non-whitespace.
pub open spec fn tok_start(s: Seq<char>, e: int) -> int
    decreases e when 0 <= e <= s.len()
{
    if e <= 0 {
        0
    } else if is_ws(s[e - 1]) {
        e
    } else {
        tok_start(s, e - 1)
    }
}

pub proof fn lemma_tok_start(s: Seq<char>, e: int)
    requires
        0 <= e <= s.len(),
    ensures
        0 <= tok_start(s, e) <= e,
        forall|j: int| tok_start(s, e) <= j < e ==> !is_ws(s[j]),
        tok_start(s, e) > 0 ==> is_ws(s[tok_start(s, e) - 1]),
    decreases e,
{
    if e > 0 && !is_ws(s[e - 1]) {
        lemma_tok_start(s, e - 1);
    }
}

/// The core index a sensor label names: labels whose lowercased text
/// mentions `core` have their last whitespace-separated token read as a
/// decimal index.
pub open spec fn spec_label_core_index(label: Seq<char>) -> Option<int> {
    if contains_seq(ascii_lower(label), "core"@) {
        let e = trim_end(label);
        spec_parse_usize(label.subrange(tok_start(label, e), e))
    } else {
        None
    }
}

/// Lowercasing touches neither whitespace, digits, nor digit values.
proof fn lemma_lower_preserves_parse(s: Seq<char>, t: Seq<char>)
    requires
        t.len() == s.len(),
        forall|i: int| 0 <= i < s.len() ==> t[i] == lower_char(#[trigger] s[i]),
    ensures
        spec_parse_usize(t) == spec_parse_usize(s),
    decreases s.len(),
{
    assert forall|i: int| 0 <= i < s.len() implies is_digit(#[trigger] t[i]) == is_digit(s[i]) by {}
    if s.len() > 0 {
        lemma_lower_preserves_parse(s.drop_last(), t.drop_last());
        if all_digits(s) {
            assert(dec_value(t) == dec_value(s)) by {
                lemma_dec_value_lower(s, t);
            }
        } else {
            let i = choose|i: int| 0 <= i < s.len() && !is_digit(#[trigger] s[i]);
            assert(!is_digit(t[i]));
        }
    }
}

proof fn lemma_dec_value_lower(s: Seq<char>, t: Seq<char>)
    requires
        t.len() == s.len(),
        forall|i: int| 0 <= i < s.len() ==> t[i] == lower_char(#[trigger] s[i]),
        all_digits(s),
    ensures
        dec_value(t) == dec_value(s),
    decreases s.len(),
{
    if s.len() > 0 {
        assert(all_digits(s.drop_last())) by {
            assert(forall|i: int|
                0 <= i < s.len() - 1 ==> #[trigger] s.drop_last()[i] == s[i]);
        }
        lemma_dec_value_lower(s.drop_last(), t.drop_last());
        assert(t.last() == lower_char(s.last()));
    }
}

/// Reads the core index out of a sensor label, per
/// [`spec_label_core_index`].
#[verifier::loop_isolation(false)]
pub fn label_core_index(label: &str) -> (r: Option<usize>)
    ensures
        match r {
            Some(v) => spec_label_core_index(label@) == Some(v as int),
            None => spec_label_core_index(label@) is None,
        },
{
    if !contains_lower(label, "core") {
        return None;
    }
    let n = label.unicode_len();
    proof {
        lemma_trim_end(label@);
    }
    let mut e = n;
    while e > 0 && is_ws_exec_local(label, e - 1)
        invariant
            e <= n,
            forall|j: int| e <= j < n ==> is_ws(label@[j]),
        decreases e,
    {
        e -= 1;
    }
    proof {
        let te = trim_end(label@);
        if e > 0 {
            if te < e {
                assert(is_ws(label@[e - 1]));
            }
            if te > e {
                assert(is_ws(label@[te - 1]));
            }
        } else {
            if te > 0 {
                assert(is_ws(label@[te - 1]));
            }
        }
        assert(te == e);
        lemma_tok_start(label@, e as int);
    }
    let mut a = e;
    while a > 0 && !is_ws_exec_local(label, a - 1)
        invariant
            a <= e <= n,
            forall|j: int| a <= j < e ==> !is_ws(label@[j]),
        decreases a,
    {
        a -= 1;
    }
    proof {
        let ts = tok_start(label@, e as int);
        if a > 0 {
            if ts < a {
                assert(!is_ws(label@[a - 1]));
            }
            if ts > a {
                assert(is_ws(label@[ts - 1]));
            }
        } else {
            if ts > 0 {
                assert(is_ws(label@[ts - 1]));
            }
        }
        assert(ts == a);
    }
    let tok = label.substring_char(a, e);
    proof {
        assert(tok@ =~= label@.subrange(a as int, e as int));
    }
    parse_usize(tok)
}

/// Reads one character of `s` and tests it for whitespace.
fn is_ws_exec_local(s: &str, i: usize) -> (r: bool)
    requires
        i < s@.len(),
    ensures
        r == is_ws(s@[i as int]),
{
    crate::text::is_ws_char(s.get_char(i))
}

/// The temperature that the sensors assign to core `i`: the reading of the
/// last component whose label names that core, if any does.
pub open spec fn last_core_temp(comps: Seq<RawComponent>, i: int) -> Option<i64>
    decreases comps.len(),
{
    if comps.len() == 0 {
        None
    } else if spec_label_core_index(comps.last().label@) == Some(i) {
        Some(comps.last().temperature)
    } else {
        last_core_temp(comps.drop_last(), i)
    }
}

/// Walks the sensors and attaches each `core N` reading to core `N`,
/// leaving usage and idle untouched.
#[verifier::loop_isolation(false)]
pub fn assign_core_temperatures(cores: &mut Vec<CpuInfo>, comps: &Vec<RawComponent>)
    ensures
        final(cores)@.len() == old(cores)@.len(),
        forall|i: int|
            0 <= i < old(cores)@.len() ==> {
                &&& (#[trigger] final(cores)@[i]).usage == old(cores)@[i].usage
                &&& final(cores)@[i].idle == old(cores)@[i].idle
                &&& final(cores)@[i].temperature == (match last_core_temp(comps@, i) {
                    Some(t) => Some(t),
                    None => old(cores)@[i].temperature,
                })
            },
{
    let n = cores.len();
    let mut k: usize = 0;
    while k < comps.len()
        invariant
            k <= comps@.len(),
            cores@.len() == n == old(cores)@.len(),
            forall|i: int|
                0 <= i < n ==> {
                    &&& (#[trigger] cores@[i]).usage == old(cores)@[i].usage
                    &&& cores@[i].idle == old(cores)@[i].idle
                    &&& cores@[i].temperature == (match last_core_temp(comps@.take(k as int), i) {
                        Some(t) => Some(t),
                        None => old(cores)@[i].temperature,
                    })
                },
        decreases comps@.len() - k,
    {
        proof {
            assert(comps@.take(k + 1).drop_last() =~= comps@.take(k as int));
        }
        let comp = &comps[k];
        if let Some(idx) = label_core_index(comp.label.as_str()) {
            if idx < n {
                let mut c = cores[idx];
                c.temperature = Some(comp.temperature);
                cores[idx] = c;
            }
        }
        k += 1;
    }
    proof {
        assert(comps@.take(comps@.len() as int) =~= comps@);
    }
}

/// Whether a sensor label names the whole CPU package.
pub open spec fn is_package_label(label: Seq<char>) -> bool {
    contains_seq(ascii_lower(label), "package"@)
}

/// The reading of the first sensor whose label mentions `package`: the
/// global CPU temperature.
pub open spec fn first_package_temp(comps: Seq<RawComponent>) -> Option<i64>
    decreases comps.len(),
{
    if comps.len() == 0 {
        None
    } else if is_package_label(comps[0].label@) {
        Some(comps[0].temperature)
    } else {
        first_package_temp(comps.drop_first())
    }
}

/// Finds the package sensor, per [`first_package_temp`].
#[verifier::loop_isolation(false)]
pub fn find_package_temp(comps: &Vec<RawComponent>) -> (r: Option<i64>)
    ensures
        r == first_package_temp(comps@),
{
    proof {
        assert(comps@.skip(0) =~= comps@);
    }
    let mut k: usize = 0;
    while k < comps.len()
        invariant
            k <= comps@.len(),
            first_package_temp(comps@.skip(k as int)) == first_package_temp(comps@),
        decreases comps@.len() - k,
    {
        proof {
            assert(comps@.skip(k as int).drop_first() =~= comps@.skip(k + 1));
            assert(comps@.skip(k as int)[0] == comps@[k as int]);
        }
        if contains_lower(comps[k].label.as_str(), "package") {
            return Some(comps[k].temperature);
        }
        k += 1;
    }
    proof {
        assert(comps@.skip(comps@.len() as int) =~= Seq::<RawComponent>::empty());
    }
    None
}

// ---------------------------------------------------------------------------
// Memory.
// ---------------------------------------------------------------------------

/// Kilobytes turned into bytes, saturating at the machine's limit.
pub open spec fn kb_to_bytes(kb: int) -> int {
    if kb * 1024 <= u64::MAX {
        kb * 1024
    } else {
        u64::MAX as int
    }
}

/// Executable counterpart of [`kb_to_bytes`].
fn kb_to_bytes_exec(kb: u64) -> (r: u64)
    ensures
        r == kb_to_bytes(kb as int),
{
    if kb <= u64::MAX / 1024 {
        proof {
            assert(kb * 1024 <= (u64::MAX / 1024) * 1024 <= u64::MAX) by (nonlinear_arith)
                requires kb <= u64::MAX / 1024;
        }
        kb * 1024
    } else {
        proof {
            assert(kb * 1024 > u64::MAX) by (nonlinear_arith)
                requires kb > u64::MAX / 1024;
        }
        u64::MAX
    }
}

/// The memory entry a raw report yields: kilobytes become bytes, and used
/// amounts are capped by their totals so that occupancy never exceeds size.
pub open spec fn spec_build_memory(raw: RawMemory) -> MemoryInfo {
    let total = kb_to_bytes(raw.total_kb as int);
    let used = if kb_to_bytes(raw.used_kb as int) <= total {
        kb_to_bytes(raw.used_kb as int)
    } else {
        total
    };
    let swap_total = kb_to_bytes(raw.swap_total_kb as int);
    let swap_used = if kb_to_bytes(raw.swap_used_kb as int) <= swap_total {
        kb_to_bytes(raw.swap_used_kb as int)
    } else {
        swap_total
    };
    MemoryInfo {
        total: total as u64,
        used: used as u64,
        free: kb_to_bytes(raw.free_kb as int) as u64,
        available: kb_to_bytes(raw.available_kb as int) as u64,
        swap_total: swap_total as u64,
        swap_used: swap_used as u64,
        swap_free: (swap_total - swap_used) as u64,
    }
}

pub fn build_memory(raw: &RawMemory) -> (m: MemoryInfo)
    ensures
        m == spec_build_memory(*raw),
        memory_wf(m),
{
    let total = kb_to_bytes_exec(raw.total_kb);
    let used_raw = kb_to_bytes_exec(raw.used_kb);
    let used = if used_raw <= total {
        used_raw
    } else {
        total
    };
    let swap_total = kb_to_bytes_exec(raw.swap_total_kb);
    let swap_used_raw = kb_to_bytes_exec(raw.swap_used_kb);
    let swap_used = if swap_used_raw <= swap_total {
        swap_used_raw
    } else {
        swap_total
    };
    MemoryInfo {
        total,
        used,
        free: kb_to_bytes_exec(raw.free_kb),
        available: kb_to_bytes_exec(raw.available_kb),
        swap_total,
        swap_used,
        swap_free: swap_total - swap_used,
    }
}

// ---------------------------------------------------------------------------
// Disks.
// ---------------------------------------------------------------------------

/// What one raw disk report becomes: used space is the total less the
/// available space (capped below at zero, should a report disagree with
/// itself).
pub open spec fn disk_used_of(total: int, available: int) -> int {
    if available <= total {
        total - available
    } else {
        0
    }
}

pub open spec fn disk_free_of(total: int, available: int) -> int {
    if available <= total {
        available
    } else {
        total
    }
}

#[verifier::loop_isolation(false)]
pub fn build_disks(raws: &Vec<RawDisk>) -> (disks: Vec<DiskInfo>)
    ensures
        disks@.len() == raws@.len(),
        forall|i: int|
            0 <= i < raws@.len() ==> {
                &&& (#[trigger] disks@[i]).name@ == raws@[i].name@
                &&& disks@[i].mount_point@ == raws@[i].mount_point@
                &&& disks@[i].total == raws@[i].total
                &&& disks@[i].used == disk_used_of(raws@[i].total as int, raws@[i].available as int)
                &&& disks@[i].free == disk_free_of(raws@[i].total as int, raws@[i].available as int)
            },
        forall|i: int| 0 <= i < disks@.len() ==> disk_wf(#[trigger] disks@[i]),
{
    let mut disks: Vec<DiskInfo> = Vec::new();
    let mut i: usize = 0;
    while i < raws.len()
        invariant
            i <= raws@.len(),
            disks@.len() == i,
            forall|j: int|
                0 <= j < i ==> {
                    &&& (#[trigger] disks@[j]).name@ == raws@[j].name@
                    &&& disks@[j].mount_point@ == raws@[j].mount_point@
                    &&& disks@[j].total == raws@[j].total
                    &&& disks@[j].used == disk_used_of(
                        raws@[j].total as int,
                        raws@[j].available as int,
                    )
                    &&& disks@[j].free == disk_free_of(
                        raws@[j].total as int,
                        raws@[j].available as int,
                    )
                },
            forall|j: int| 0 <= j < i ==> disk_wf(#[trigger] disks@[j]),
        decreases raws@.len() - i,
    {
        let r = &raws[i];
        let used = if r.available <= r.total {
            r.total - r.available
        } else {
            0
        };
        let free = if r.available <= r.total {
            r.available
        } else {
            r.total
        };
        disks.push(
            DiskInfo {
                name: r.name.clone(),
                mount_point: r.mount_point.clone(),
                total: r.total,
                used,
                free,
            },
        );
        i += 1;
    }
    disks
}

// ---------------------------------------------------------------------------
// Networks.
// ---------------------------------------------------------------------------

/// An interface qualifies when its name passes the non-virtual filter, it
/// has received at least one byte since boot, and its captured address text
/// yields an IPv4 address.
pub open spec fn net_qualifies(r: RawNetwork) -> bool {
    &&& valid_interface(r.interface@)
    &&& r.rx_bytes > 0
    &&& spec_parse_ip(r.ip_text@) is Some
}

/// The address a qualifying interface resolves to.
pub open spec fn parsed_ip(r: RawNetwork) -> Seq<char> {
    match spec_parse_ip(r.ip_text@) {
        Some(ip) => ip,
        None => Seq::empty(),
    }
}

/// The view of one published network entry: name, address, byte counters.
pub open spec fn net_view(n: NetworkInfo) -> (Seq<char>, Seq<char>, u64, u64) {
    (n.interface@, n.ip_address@, n.rx_bytes, n.tx_bytes)
}

/// The qualifying interfaces, in report order, as published entries.
pub open spec fn spec_build_networks(raws: Seq<RawNetwork>) -> Seq<(Seq<char>, Seq<char>, u64, u64)>
    decreases raws.len(),
{
    if raws.len() == 0 {
        Seq::empty()
    } else if net_qualifies(raws.last()) {
        spec_build_networks(raws.drop_last()) + seq![
            (raws.last().interface@, parsed_ip(raws.last()), raws.last().rx_bytes, raws.last().tx_bytes),
        ]
    } else {
        spec_build_networks(raws.drop_last())
    }
}

/// What the published network sequence is: the qualifying interfaces, or the
/// lone sentinel when none qualifies.
pub open spec fn spec_networks_result(raws: Seq<RawNetwork>) -> Seq<(Seq<char>, Seq<char>, u64, u64)> {
    let b = spec_build_networks(raws);
    if b.len() == 0 {
        seq![("N/A"@, "N/A"@, 0u64, 0u64)]
    } else {
        b
    }
}

/// Filters the raw interfaces and resolves their addresses; when none
/// qualifies, publishes the sentinel entry instead of an empty sequence.
#[verifier::loop_isolation(false)]
pub fn build_networks(raws: &Vec<RawNetwork>) -> (nets: Vec<NetworkInfo>)
    ensures
        nets@.map_values(|n: NetworkInfo| net_view(n)) == spec_networks_result(raws@),
        networks_wf(nets@),
{
    let mut nets: Vec<NetworkInfo> = Vec::new();
    let mut i: usize = 0;
    while i < raws.len()
        invariant
            i <= raws@.len(),
            nets@.map_values(|n: NetworkInfo| net_view(n)) == spec_build_networks(
                raws@.take(i as int),
            ),
            forall|j: int|
                0 <= j < nets@.len() ==> valid_interface(#[trigger] nets@[j].interface@),
        decreases raws@.len() - i,
    {
        proof {
            assert(raws@.take(i + 1).drop_last() =~= raws@.take(i as int));
            assert(raws@.take(i + 1).last() == raws@[i as int]);
        }
        let r = &raws[i];
        if is_valid_interface(r.interface.as_str()) && r.rx_bytes > 0 {
            if let Some(ip) = parse_interface_ip(r.ip_text.as_str()) {
                nets.push(
                    NetworkInfo {
                        interface: r.interface.clone(),
                        ip_address: ip,
                        rx_bytes: r.rx_bytes,
                        tx_bytes: r.tx_bytes,
                    },
                );
                proof {
                    assert(nets@.map_values(|n: NetworkInfo| net_view(n)) =~= spec_build_networks(
                        raws@.take(i + 1),
                    ));
                }
            } else {
                proof {
                    assert(!net_qualifies(raws@[i as int]));
                }
            }
        } else {
            proof {
                assert(!net_qualifies(raws@[i as int]));
            }
        }
        i += 1;
    }
    proof {
        assert(raws@.take(raws@.len() as int) =~= raws@);
    }
    if nets.len() == 0 {
        nets.push(
            NetworkInfo {
                interface: String::from_str("N/A"),
                ip_address: String::from_str("N/A"),
                rx_bytes: 0,
                tx_bytes: 0,
            },
        );
        proof {
            assert(nets@.map_values(|n: NetworkInfo| net_view(n)) =~= spec_networks_result(raws@));
        }
    }
    nets
}

// ---------------------------------------------------------------------------
// The whole snapshot.
// ---------------------------------------------------------------------------

/// Builds one complete snapshot from a raw probe report. The result is
/// well-formed: memory and every disk keep `used <= total`, and the network
/// sequence is non-empty with only filtered names, or the lone sentinel.
pub fn build_snapshot(raw: &RawSample) -> (s: SystemInfo)
    ensures
        snapshot_wf(s),
        s.global_cpu.usage == raw.global_cpu_usage,
        s.global_cpu.idle == idle_of(raw.global_cpu_usage as int),
        s.global_cpu.temperature == first_package_temp(raw.components@),
        s.cpu_cores@.len() == raw.core_usages@.len(),
        forall|i: int|
            0 <= i < raw.core_usages@.len() ==> {
                &&& (#[trigger] s.cpu_cores@[i]).usage == raw.core_usages@[i]
                &&& s.cpu_cores@[i].idle == idle_of(raw.core_usages@[i] as int)
                &&& s.cpu_cores@[i].temperature == last_core_temp(raw.components@, i)
            },
        s.memory == spec_build_memory(raw.memory),
        s.disks@.len() == raw.disks@.len(),
        forall|i: int|
            0 <= i < raw.disks@.len() ==> {
                &&& (#[trigger] s.disks@[i]).name@ == raw.disks@[i].name@
                &&& s.disks@[i].mount_point@ == raw.disks@[i].mount_point@
                &&& s.disks@[i].total == raw.disks@[i].total
                &&& s.disks@[i].used == disk_used_of(
                    raw.disks@[i].total as int,
                    raw.disks@[i].available as int,
                )
                &&& s.disks@[i].free == disk_free_of(
                    raw.disks@[i].total as int,
                    raw.disks@[i].available as int,
                )
            },
        s.networks@.map_values(|n: NetworkInfo| net_view(n)) == spec_networks_result(
            raw.networks@,
        ),
{
    let mut cores = build_cpu_cores(&raw.core_usages);
    assign_core_temperatures(&mut cores, &raw.components);
    let global_temp = find_package_temp(&raw.components);
    let global = CpuInfo {
        usage: raw.global_cpu_usage,
        idle: if raw.global_cpu_usage <= 10000 {
            10000 - raw.global_cpu_usage
        } else {
            0
        },
        temperature: global_temp,
    };
    let memory = build_memory(&raw.memory);
    let disks = build_disks(&raw.disks);
    let networks = build_networks(&raw.networks);
    SystemInfo { global_cpu: global, cpu_cores: cores, memory, disks, networks }
}

} // verus!
