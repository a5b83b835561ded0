//! Traffic sampling: per-adapter cumulative byte counters diffed into
//! instantaneous rates, with a debounce threshold, clamping on counter
//! resets, session counters against a startup baseline, and a denylist that
//! hides synthetic adapters.
//!
//! Reading the counters is the front end's business (an OS query); it hands
//! one `AdapterSample` per adapter to `update` each tick.

use vstd::prelude::*;

verus! {

use crate::nav::{next_index, previous_index, spec_next_index, spec_previous_index};
use crate::text::{contains_seq, find_seq, lower_chars, lower_of};

/// One adapter's cumulative counters at one instant, as read from the OS.
pub struct AdapterSample {
    /// Adapter name.
    pub name: String,
    /// Cumulative bytes received.
    pub total_rx: u64,
    /// Cumulative bytes transmitted.
    pub total_tx: u64,
}

/// Per-adapter rate-tracking state.
#[derive(Clone, Copy)]
pub struct TrafficSnapshot {
    /// Cumulative bytes received at the last accepted sample.
    pub total_rx: u64,
    /// Cumulative bytes transmitted at the last accepted sample.
    pub total_tx: u64,
    /// When that sample was accepted, in milliseconds of a monotonic clock.
    pub last_update_ms: u64,
    /// Receive rate in bytes per second, from the last accepted interval.
    pub rx_speed: u64,
    /// Transmit rate in bytes per second, from the last accepted interval.
    pub tx_speed: u64,
}

/// A named rate-tracking entry.
pub struct AdapterTraffic {
    /// Adapter name.
    pub name: String,
    /// Its rate-tracking state.
    pub snap: TrafficSnapshot,
}

/// An adapter's cumulative counters captured once at startup.
pub struct Baseline {
    /// Adapter name.
    pub name: String,
    /// Cumulative bytes received at startup.
    pub rx: u64,
    /// Cumulative bytes transmitted at startup.
    pub tx: u64,
}

/// One row of the traffic view.
pub struct DisplayItem {
    /// Adapter name.
    pub name: String,
    /// Receive rate in bytes per second.
    pub rx_speed: u64,
    /// Transmit rate in bytes per second.
    pub tx_speed: u64,
    /// Bytes received since startup.
    pub session_rx: u64,
    /// Bytes transmitted since startup.
    pub session_tx: u64,
    /// Cumulative bytes received.
    pub total_rx: u64,
    /// Cumulative bytes transmitted.
    pub total_tx: u64,
}

/// Subtraction clamped at zero, tolerating counter resets.
pub open spec fn sat_sub(a: u64, b: u64) -> u64 {
    if a >= b {
        (a - b) as u64
    } else {
        0u64
    }
}

/// Bytes-per-second rate over an interval: zero when the counter went
/// backwards (a reset must not produce a negative rate), otherwise the
/// difference scaled to one second, saturating.
pub open spec fn spec_rate(prev: u64, cur: u64, elapsed_ms: u64) -> u64
    recommends
        elapsed_ms > 0,
{
    if cur < prev {
        0u64
    } else if (cur - prev) * 1000 / (elapsed_ms as int) > u64::MAX {
        u64::MAX
    } else {
        ((cur - prev) * 1000 / (elapsed_ms as int)) as u64
    }
}

/// Subtraction clamped at zero.
pub fn sat_sub_u64(a: u64, b: u64) -> (r: u64)
    ensures
        r == sat_sub(a, b),
{
    if a >= b {
        a - b
    } else {
        0
    }
}

/// Bytes-per-second rate over an interval, never negative.
pub fn compute_rate(prev: u64, cur: u64, elapsed_ms: u64) -> (r: u64)
    requires
        elapsed_ms > 0,
    ensures
        r == spec_rate(prev, cur, elapsed_ms),
{
    if cur < prev {
        return 0;
    }
    let diff = cur - prev;
    let scaled: u128 = (diff as u128) * 1000 / (elapsed_ms as u128);
    if scaled > u64::MAX as u128 {
        u64::MAX
    } else {
        scaled as u64
    }
}

/// What one sample does to an adapter's rate state: when the time since the
/// last accepted sample exceeds the debounce threshold, the rates are
/// recomputed and the sample is accepted; otherwise the state (and so the
/// previous rate) is kept unchanged.
pub open spec fn snap_stepped(
    s: TrafficSnapshot,
    cur_rx: u64,
    cur_tx: u64,
    now_ms: u64,
    debounce_ms: u64,
) -> TrafficSnapshot {
    if now_ms >= s.last_update_ms && now_ms - s.last_update_ms > debounce_ms {
        TrafficSnapshot {
            total_rx: cur_rx,
            total_tx: cur_tx,
            last_update_ms: now_ms,
            rx_speed: spec_rate(s.total_rx, cur_rx, (now_ms - s.last_update_ms) as u64),
            tx_speed: spec_rate(s.total_tx, cur_tx, (now_ms - s.last_update_ms) as u64),
        }
    } else {
        s
    }
}

/// The rate state of an adapter seen for the first time: the sample becomes
/// the baseline and the first rate is zero by construction.
pub open spec fn snap_fresh(cur_rx: u64, cur_tx: u64, now_ms: u64) -> TrafficSnapshot {
    TrafficSnapshot {
        total_rx: cur_rx,
        total_tx: cur_tx,
        last_update_ms: now_ms,
        rx_speed: 0,
        tx_speed: 0,
    }
}

/// Applies one sample to an adapter's rate state.
pub fn step_snapshot(s: &mut TrafficSnapshot, cur_rx: u64, cur_tx: u64, now_ms: u64, debounce_ms: u64)
    ensures
        *final(s) == snap_stepped(*old(s), cur_rx, cur_tx, now_ms, debounce_ms),
{
    if now_ms >= s.last_update_ms {
        let elapsed = now_ms - s.last_update_ms;
        if elapsed > debounce_ms {
            s.rx_speed = compute_rate(s.total_rx, cur_rx, elapsed);
            s.tx_speed = compute_rate(s.total_tx, cur_tx, elapsed);
            s.total_rx = cur_rx;
            s.total_tx = cur_tx;
            s.last_update_ms = now_ms;
        }
    }
}

/// The adapter-name substrings that mark loopback, tunnel, capture-driver
/// and similar synthetic interfaces, matched against the lowercased name.
pub open spec fn deny_keywords() -> Seq<Seq<char>> {
    seq![
        "loopback"@,
        "pseudo"@,
        "isatap"@,
        "teredo"@,
        "npcap"@,
        "packet driver"@,
        "genicam"@,
        "tpacket"@,
        "driver-"@,
        "lltdio"@,
        "rspndr"@,
        "virtual box"@,
        "vmware"@,
    ]
}

/// A lowercased adapter name that should not be surfaced.
pub open spec fn ignored_lower(lower: Seq<char>) -> bool {
    exists|k: int| 0 <= k < deny_keywords().len() && contains_seq(lower, #[trigger] deny_keywords()[k])
}

/// An adapter name that should not be surfaced, by its case-folded form.
pub open spec fn ignored_name(name: Seq<char>) -> bool {
    ignored_lower(lower_of(name))
}

/// The characters of an ASCII literal.
fn needle(s: &str) -> (r: Vec<char>)
    requires
        vstd::string::is_ascii(s),
    ensures
        r@ == s@,
{
    match crate::text::ascii_chars(s) {
        Some(v) => v,
        None => unreached(),
    }
}

/// Whether a lowercased adapter name holds any denylisted substring.
pub fn is_ignored_lower(lower: &Vec<char>) -> (r: bool)
    ensures
        r == ignored_lower(lower@),
{
    proof {
        reveal_strlit("loopback");
        reveal_strlit("pseudo");
        reveal_strlit("isatap");
        reveal_strlit("teredo");
        reveal_strlit("npcap");
        reveal_strlit("packet driver");
        reveal_strlit("genicam");
        reveal_strlit("tpacket");
        reveal_strlit("driver-");
        reveal_strlit("lltdio");
        reveal_strlit("rspndr");
        reveal_strlit("virtual box");
        reveal_strlit("vmware");
    }
    let mut needles: Vec<Vec<char>> = Vec::new();
    needles.push(needle("loopback"));
    needles.push(needle("pseudo"));
    needles.push(needle("isatap"));
    needles.push(needle("teredo"));
    needles.push(needle("npcap"));
    needles.push(needle("packet driver"));
    needles.push(needle("genicam"));
    needles.push(needle("tpacket"));
    needles.push(needle("driver-"));
    needles.push(needle("lltdio"));
    needles.push(needle("rspndr"));
    needles.push(needle("virtual box"));
    needles.push(needle("vmware"));
    proof {
        assert(needles@.len() == deny_keywords().len());
        assert(forall|k: int|
            0 <= k < needles@.len() ==> needles@[k]@ == #[trigger] deny_keywords()[k]);
    }
    let mut k: usize = 0;
    while k < needles.len()
        invariant
            needles@.len() == deny_keywords().len(),
            forall|k0: int|
                0 <= k0 < needles@.len() ==> needles@[k0]@ == #[trigger] deny_keywords()[k0],
            0 <= k <= needles@.len(),
            forall|k0: int| 0 <= k0 < k ==> !contains_seq(lower@, #[trigger] deny_keywords()[k0]),
        decreases needles@.len() - k,
    {
        if find_seq(lower, &needles[k]) {
            return true;
        }
        k = k + 1;
    }
    false
}

/// Whether an adapter name, after case folding, holds any denylisted
/// substring.
pub fn is_ignored_name(name: &String) -> (r: bool)
    ensures
        r == ignored_name(name@),
{
    let lower = lower_chars(name.as_str());
    is_ignored_lower(&lower)
}

/// No two entries share a name.
pub open spec fn unique_names(h: Seq<AdapterTraffic>) -> bool {
    forall|i: int, j: int| 0 <= i < j < h.len() ==> h[i].name@ != h[j].name@
}

/// No two samples share a name.
pub open spec fn distinct_names(s: Seq<AdapterSample>) -> bool {
    forall|i: int, j: int| 0 <= i < j < s.len() ==> s[i].name@ != s[j].name@
}

/// First index in `h` of an entry named `name`; `h.len()` when there is
/// none.
pub open spec fn find_entry(h: Seq<AdapterTraffic>, name: Seq<char>, from: int) -> int
    recommends
        0 <= from <= h.len(),
    decreases h.len() - from when 0 <= from <= h.len()
{
    if from >= h.len() {
        h.len() as int
    } else if h[from].name@ == name {
        from
    } else {
        find_entry(h, name, from + 1)
    }
}

/// `find_entry` returns the first entry with the name, when there is one.
pub proof fn lemma_find_entry(h: Seq<AdapterTraffic>, name: Seq<char>, from: int)
    requires
        0 <= from <= h.len(),
    ensures
        from <= find_entry(h, name, from) <= h.len(),
        find_entry(h, name, from) < h.len() ==> h[find_entry(h, name, from)].name@ == name,
        forall|j: int| from <= j < find_entry(h, name, from) ==> h[j].name@ != name,
    decreases h.len() - from,
{
    if from < h.len() && h[from].name@ != name {
        lemma_find_entry(h, name, from + 1);
    }
}

/// First index in `base` of a baseline named `name`; `base.len()` when there
/// is none.
pub open spec fn find_base(base: Seq<Baseline>, name: Seq<char>, from: int) -> int
    recommends
        0 <= from <= base.len(),
    decreases base.len() - from when 0 <= from <= base.len()
{
    if from >= base.len() {
        base.len() as int
    } else if base[from].name@ == name {
        from
    } else {
        find_base(base, name, from + 1)
    }
}

/// `find_base` returns the first baseline with the name, when there is one.
pub proof fn lemma_find_base(base: Seq<Baseline>, name: Seq<char>, from: int)
    requires
        0 <= from <= base.len(),
    ensures
        from <= find_base(base, name, from) <= base.len(),
        find_base(base, name, from) < base.len() ==> base[find_base(base, name, from)].name@
            == name,
        forall|j: int| from <= j < find_base(base, name, from) ==> base[j].name@ != name,
    decreases base.len() - from,
{
    if from < base.len() && base[from].name@ != name {
        lemma_find_base(base, name, from + 1);
    }
}

/// The startup counters recorded for `name`; an adapter that appeared after
/// startup counts from zero.
pub open spec fn spec_baseline(base: Seq<Baseline>, name: Seq<char>) -> (u64, u64) {
    let i = find_base(base, name, 0);
    if i < base.len() {
        (base[i].rx, base[i].tx)
    } else {
        (0u64, 0u64)
    }
}

/// The rate state an adapter's sample leaves it in: its tracked entry
/// stepped, or a fresh entry when the adapter was not tracked yet.
pub open spec fn snap_for(
    h: Seq<AdapterTraffic>,
    s: AdapterSample,
    now_ms: u64,
    debounce_ms: u64,
) -> TrafficSnapshot {
    let i = find_entry(h, s.name@, 0);
    if i < h.len() {
        snap_stepped(h[i].snap, s.total_rx, s.total_tx, now_ms, debounce_ms)
    } else {
        snap_fresh(s.total_rx, s.total_tx, now_ms)
    }
}

/// The traffic row one sample produces: the stepped rates, the session
/// counters against the startup baseline (clamped at zero), and the raw
/// cumulative totals.
pub open spec fn item_for(
    h: Seq<AdapterTraffic>,
    base: Seq<Baseline>,
    s: AdapterSample,
    now_ms: u64,
    debounce_ms: u64,
) -> DisplayItem {
    let snap = snap_for(h, s, now_ms, debounce_ms);
    let bl = spec_baseline(base, s.name@);
    DisplayItem {
        name: s.name,
        rx_speed: snap.rx_speed,
        tx_speed: snap.tx_speed,
        session_rx: sat_sub(s.total_rx, bl.0),
        session_tx: sat_sub(s.total_tx, bl.1),
        total_rx: s.total_rx,
        total_tx: s.total_tx,
    }
}

/// Some tracked entry carries this name and state.
pub open spec fn history_has(h: Seq<AdapterTraffic>, name: Seq<char>, snap: TrafficSnapshot) -> bool {
    exists|i: int| 0 <= i < h.len() && h[i].name@ == name && #[trigger] h[i].snap == snap
}

/// How many samples survive the denylist.
pub open spec fn count_kept(samples: Seq<AdapterSample>) -> int
    decreases samples.len(),
{
    if samples.len() == 0 {
        0
    } else {
        count_kept(samples.drop_last()) + (if ignored_name(samples.last().name@) {
            0int
        } else {
            1int
        })
    }
}

/// Rows ordered by descending receive rate.
pub open spec fn sorted_by_rate(s: Seq<DisplayItem>) -> bool {
    forall|i: int, j: int| 0 <= i < j < s.len() ==> s[i].rx_speed >= s[j].rx_speed
}

/// First tracked entry named `name`, or the history length.
fn find_history(h: &Vec<AdapterTraffic>, name: &String) -> (r: usize)
    ensures
        r == find_entry(h@, name@, 0),
{
    proof {
        lemma_find_entry(h@, name@, 0);
    }
    let ghost target = find_entry(h@, name@, 0);
    let mut i: usize = 0;
    while i < h.len()
        invariant
            0 <= i <= h@.len(),
            target == find_entry(h@, name@, 0),
            0 <= target <= h@.len(),
            target < h@.len() ==> h@[target].name@ == name@,
            forall|j: int| 0 <= j < target ==> h@[j].name@ != name@,
            i <= target,
        decreases h@.len() - i,
    {
        if h[i].name == *name {
            proof {
                if i < target {
                    assert(h@[i as int].name@ != name@);
                }
            }
            return i;
        }
        proof {
            if i == target {
                assert(h@[target].name@ == name@);
            }
        }
        i = i + 1;
    }
    i
}

/// The startup counters recorded for `name`, or zeros.
fn baseline_for(base: &Vec<Baseline>, name: &String) -> (r: (u64, u64))
    ensures
        r == spec_baseline(base@, name@),
{
    proof {
        lemma_find_base(base@, name@, 0);
    }
    let ghost target = find_base(base@, name@, 0);
    let mut i: usize = 0;
    while i < base.len()
        invariant
            0 <= i <= base@.len(),
            target == find_base(base@, name@, 0),
            0 <= target <= base@.len(),
            target < base@.len() ==> base@[target].name@ == name@,
            forall|j: int| 0 <= j < target ==> base@[j].name@ != name@,
            i <= target,
        decreases base@.len() - i,
    {
        if base[i].name == *name {
            proof {
                if i < target {
                    assert(base@[i as int].name@ != name@);
                }
            }
            return (base[i].rx, base[i].tx);
        }
        proof {
            if i == target {
                assert(base@[target].name@ == name@);
            }
        }
        i = i + 1;
    }
    (0, 0)
}

/// Inserts one row into a list sorted by descending receive rate.
fn insert_sorted(out: &mut Vec<DisplayItem>, it: DisplayItem)
    requires
        sorted_by_rate(old(out)@),
    ensures
        sorted_by_rate(final(out)@),
        final(out)@.len() == old(out)@.len() + 1,
        forall|x: DisplayItem| #[trigger] final(out)@.contains(x) ==> old(out)@.contains(x) || x == it,
        forall|x: DisplayItem| #[trigger] old(out)@.contains(x) ==> final(out)@.contains(x),
        final(out)@.contains(it),
{
    let n = out.len();
    let mut i: usize = 0;
    while i < n && out[i].rx_speed >= it.rx_speed
        invariant
            n == out@.len(),
            0 <= i <= n,
            forall|j: int| 0 <= j < i ==> out@[j].rx_speed >= it.rx_speed,
            out@ == old(out)@,
        decreases n - i,
    {
        i = i + 1;
    }
    proof {
        assert(forall|j: int| i <= j < out@.len() ==> it.rx_speed > #[trigger] out@[j].rx_speed) by {
            if i < out@.len() {
                assert(out@[i as int].rx_speed < it.rx_speed);
                assert forall|j: int| i < j < out@.len() implies it.rx_speed > #[trigger] out@[j].rx_speed by {
                    assert(out@[i as int].rx_speed >= out@[j].rx_speed);
                }
            }
        }
    }
    let ghost before = out@;
    out.insert(i, it);
    proof {
        let after = out@;
        assert(after == before.insert(i as int, it));
        assert forall|p: int, q: int| 0 <= p < q < after.len() implies after[p].rx_speed
            >= after[q].rx_speed by {
            if q < i {
            } else if p < i && q == i {
            } else if p < i && q > i {
                assert(after[q] == before[q - 1]);
            } else if p == i {
                assert(after[q] == before[q - 1]);
            } else {
                assert(after[p] == before[p - 1]);
                assert(after[q] == before[q - 1]);
            }
        }
        assert(after[i as int] == it);
        assert forall|x: DisplayItem| #[trigger] after.contains(x) implies before.contains(x) || x
            == it by {
            let k = choose|k: int| 0 <= k < after.len() && after[k] == x;
            if k < i {
                assert(before[k] == x);
            } else if k > i {
                assert(before[k - 1] == x);
            }
        }
        assert forall|x: DisplayItem| #[trigger] before.contains(x) implies after.contains(x) by {
            let k = choose|k: int| 0 <= k < before.len() && before[k] == x;
            if k < i {
                assert(after[k] == x);
            } else {
                assert(after[k + 1] == x);
            }
        }
    }
}

/// Sorts the rows by descending receive rate, keeping exactly the same rows.
fn sort_display(items: &mut Vec<DisplayItem>)
    ensures
        final(items)@.len() == old(items)@.len(),
        sorted_by_rate(final(items)@),
        forall|x: DisplayItem| #[trigger] final(items)@.contains(x) ==> old(items)@.contains(x),
        forall|x: DisplayItem| #[trigger] old(items)@.contains(x) ==> final(items)@.contains(x),
{
    let ghost src = items@;
    let mut out: Vec<DisplayItem> = Vec::new();
    while items.len() > 0
        invariant
            items@ == src.take(items@.len() as int),
            items@.len() <= src.len(),
            out@.len() + items@.len() == src.len(),
            sorted_by_rate(out@),
            forall|x: DisplayItem| #[trigger] out@.contains(x) ==> src.contains(x),
            forall|x: DisplayItem| #[trigger] src.contains(x) ==> out@.contains(x) || items@.contains(x),
        decreases items@.len(),
    {
        let ghost l = items@.len() as int;
        let it = match items.pop() {
            Some(it) => it,
            None => unreached(),
        };
        proof {
            assert(items@ =~= src.take(l - 1));
            assert(it == src[l - 1]);
            assert(src.contains(it)) by {
                assert(src[l - 1] == it);
            }
        }
        let ghost out_before = out@;
        insert_sorted(&mut out, it);
        proof {
            assert forall|x: DisplayItem| #[trigger] src.contains(x) implies out@.contains(x)
                || items@.contains(x) by {
                if out_before.contains(x) {
                } else if src.take(l).contains(x) {
                    let k = choose|k: int| 0 <= k < l && src.take(l)[k] == x;
                    if k < l - 1 {
                        assert(items@[k] == x);
                    } else {
                        assert(x == it);
                    }
                }
            }
        }
    }
    *items = out;
    proof {
        assert forall|x: DisplayItem| #[trigger] src.contains(x) implies items@.contains(x) by {}
    }
}

/// Traffic view state as the renderer sees it.
pub struct TrafficModule {
    /// Per-adapter rate-tracking entries, unique by name.
    pub history: Vec<AdapterTraffic>,
    /// Startup counters, for the session totals.
    pub initial: Vec<Baseline>,
    /// The rows shown, sorted by descending receive rate.
    pub display_items: Vec<DisplayItem>,
    /// Cursor over the rows.
    pub selected: Option<usize>,
}

impl TrafficModule {
    /// Tracked entries unique by name, cursor inside the row list.
    pub open spec fn wf(&self) -> bool {
        &&& unique_names(self.history@)
        &&& match self.selected {
            Some(i) => i < self.display_items@.len(),
            None => true,
        }
    }

    /// A fresh sampler: the given first reading becomes the session
    /// baseline, nothing is tracked or shown yet.
    pub fn new(samples: &Vec<AdapterSample>) -> (r: TrafficModule)
        ensures
            r.wf(),
            r.history@.len() == 0,
            r.display_items@.len() == 0,
            r.selected is None,
            r.initial@.len() == samples@.len(),
            forall|j: int|
                0 <= j < samples@.len() ==> #[trigger] r.initial@[j].name@ == samples@[j].name@
                    && r.initial@[j].rx == samples@[j].total_rx && r.initial@[j].tx
                    == samples@[j].total_tx,
    {
        let mut initial: Vec<Baseline> = Vec::new();
        let n = samples.len();
        let mut j: usize = 0;
        while j < n
            invariant
                n == samples@.len(),
                0 <= j <= n,
                initial@.len() == j,
                forall|k: int|
                    0 <= k < j ==> #[trigger] initial@[k].name@ == samples@[k].name@
                        && initial@[k].rx == samples@[k].total_rx && initial@[k].tx
                        == samples@[k].total_tx,
            decreases n - j,
        {
            initial.push(
                Baseline {
                    name: samples[j].name.clone(),
                    rx: samples[j].total_rx,
                    tx: samples[j].total_tx,
                },
            );
            j = j + 1;
        }
        TrafficModule { history: Vec::new(), initial, display_items: Vec::new(), selected: None }
    }

    /// Tick-driven refresh: every non-denylisted sample steps its adapter's
    /// rate state (freshly tracked adapters start at rate zero) and yields
    /// one row with its rates, session counters and totals; the rows are
    /// shown sorted by descending receive rate; the cursor is clamped to the
    /// new row count.
    #[verifier::rlimit(50)]
    pub fn update(&mut self, samples: &Vec<AdapterSample>, now_ms: u64, debounce_ms: u64)
        requires
            old(self).wf(),
            distinct_names(samples@),
        ensures
            final(self).wf(),
            final(self).initial == old(self).initial,
            final(self).display_items@.len() == count_kept(samples@),
            sorted_by_rate(final(self).display_items@),
            forall|j: int|
                0 <= j < samples@.len() && !ignored_name(#[trigger] samples@[j].name@)
                    ==> final(self).display_items@.contains(
                    item_for(old(self).history@, old(self).initial@, samples@[j], now_ms, debounce_ms),
                ),
            forall|i: int|
                0 <= i < final(self).display_items@.len() ==> exists|j: int|
                    0 <= j < samples@.len() && !ignored_name(samples@[j].name@)
                        && #[trigger] final(self).display_items@[i] == item_for(
                        old(self).history@,
                        old(self).initial@,
                        samples@[j],
                        now_ms,
                        debounce_ms,
                    ),
            forall|j: int|
                0 <= j < samples@.len() && !ignored_name(#[trigger] samples@[j].name@)
                    ==> history_has(
                    final(self).history@,
                    samples@[j].name@,
                    snap_for(old(self).history@, samples@[j], now_ms, debounce_ms),
                ),
            forall|i: int|
                0 <= i < final(self).history@.len() ==> old(self).history@.contains(
                    #[trigger] final(self).history@[i],
                ) || exists|j: int|
                    0 <= j < samples@.len() && !ignored_name(samples@[j].name@)
                        && final(self).history@[i].name@ == samples@[j].name@
                        && final(self).history@[i].snap == snap_for(old(self).history@, samples@[j], now_ms, debounce_ms),
    {
        let ghost h0 = self.history@;
        let ghost b0 = self.initial@;
        let mut items: Vec<DisplayItem> = Vec::new();
        let ghost mut srcs: Seq<int> = Seq::empty();
        let n = samples.len();
        let mut j: usize = 0;
        while j < n
            invariant
                n == samples@.len(),
                0 <= j <= n,
                distinct_names(samples@),
                h0 == old(self).history@,
                b0 == old(self).initial@,
                unique_names(h0),
                unique_names(self.history@),
                self.initial == old(self).initial,
                items@.len() == count_kept(samples@.take(j as int)),
                forall|j0: int|
                    0 <= j0 < j && !ignored_name(#[trigger] samples@[j0].name@) ==> items@.contains(
                        item_for(h0, b0, samples@[j0], now_ms, debounce_ms),
                    ),
                srcs.len() == items@.len(),
                forall|i: int|
                    0 <= i < items@.len() ==> 0 <= #[trigger] srcs[i] < j && !ignored_name(
                        samples@[srcs[i]].name@,
                    ) && items@[i] == item_for(h0, b0, samples@[srcs[i]], now_ms, debounce_ms),
                forall|j0: int|
                    0 <= j0 < j && !ignored_name(#[trigger] samples@[j0].name@) ==> history_has(
                        self.history@,
                        samples@[j0].name@,
                        snap_for(h0, samples@[j0], now_ms, debounce_ms),
                    ),
                forall|i: int|
                    0 <= i < self.history@.len() ==> h0.contains(#[trigger] self.history@[i])
                        || exists|j0: int|
                        0 <= j0 < j && !ignored_name(samples@[j0].name@) && self.history@[i].name@
                            == samples@[j0].name@ && self.history@[i].snap == snap_for(
                            h0,
                            samples@[j0],
                            now_ms,
                            debounce_ms,
                        ),
                h0.len() <= self.history@.len(),
                forall|i: int|
                    0 <= i < h0.len() ==> #[trigger] self.history@[i].name@ == h0[i].name@,
                forall|i: int|
                    0 <= i < h0.len() && (forall|j0: int|
                        0 <= j0 < j ==> #[trigger] samples@[j0].name@ != h0[i].name@)
                        ==> self.history@.contains(#[trigger] h0[i]),
            decreases n - j,
        {
            proof {
                assert(samples@.take(j + 1).drop_last() =~= samples@.take(j as int));
                assert(samples@.take(j + 1).last() == samples@[j as int]);
            }
            let kept = !is_ignored_name(&samples[j].name);
            if kept {
                let ghost hc = self.history@;
                let ghost name_j = samples@[j as int].name@;
                let ghost target_snap = snap_for(h0, samples@[j as int], now_ms, debounce_ms);
                let idx = find_history(&self.history, &samples[j].name);
                proof {
                    lemma_find_entry(hc, name_j, 0);
                    lemma_find_entry(h0, name_j, 0);
                }
                let rx_speed: u64;
                let tx_speed: u64;
                if idx < self.history.len() {
                    proof {
                        let e = hc[idx as int];
                        assert(h0.contains(e)) by {
                            if !h0.contains(e) {
                                let j0 = choose|j0: int|
                                    0 <= j0 < j && !ignored_name(samples@[j0].name@) && e.name@
                                        == samples@[j0].name@ && e.snap == snap_for(
                                        h0,
                                        samples@[j0],
                                        now_ms,
                                        debounce_ms,
                                    );
                                assert(samples@[j0].name@ == name_j);
                                assert(false);
                            }
                        }
                        let k = choose|k: int| 0 <= k < h0.len() && #[trigger] h0[k] == e;
                        let f0 = find_entry(h0, name_j, 0);
                        assert(f0 == k) by {
                            if f0 < k {
                                assert(h0[f0].name@ == h0[k].name@);
                            }
                            if f0 > k {
                                assert(h0[k].name@ != name_j);
                            }
                        }
                        assert(h0[f0].snap == e.snap);
                    }
                    let snap0 = self.history[idx].snap;
                    let mut snap1 = snap0;
                    step_snapshot(&mut snap1, samples[j].total_rx, samples[j].total_tx, now_ms, debounce_ms);
                    self.history[idx].snap = snap1;
                    rx_speed = snap1.rx_speed;
                    tx_speed = snap1.tx_speed;
                    proof {
                        assert(self.history@[idx as int].name@ == name_j);
                        assert(self.history@[idx as int].snap == target_snap);
                        assert(forall|i: int|
                            0 <= i < hc.len() && i != idx ==> self.history@[i] == #[trigger] hc[i]);
                        assert forall|p: int, q: int|
                            0 <= p < q < self.history@.len() implies self.history@[p].name@
                            != self.history@[q].name@ by {
                            assert(hc[p].name@ != hc[q].name@);
                            assert(self.history@[p].name@ == hc[p].name@);
                            assert(self.history@[q].name@ == hc[q].name@);
                        }
                        assert forall|j0: int|
                            0 <= j0 < j + 1 && !ignored_name(#[trigger] samples@[j0].name@)
                            implies history_has(
                            self.history@,
                            samples@[j0].name@,
                            snap_for(h0, samples@[j0], now_ms, debounce_ms),
                        ) by {
                            if j0 == j {
                                assert(self.history@[idx as int].name@ == samples@[j0].name@
                                    && self.history@[idx as int].snap == snap_for(
                                    h0,
                                    samples@[j0],
                                    now_ms,
                                    debounce_ms,
                                ));
                            } else {
                                let i0 = choose|i0: int|
                                    0 <= i0 < hc.len() && hc[i0].name@ == samples@[j0].name@
                                        && #[trigger] hc[i0].snap == snap_for(
                                        h0,
                                        samples@[j0],
                                        now_ms,
                                        debounce_ms,
                                    );
                                assert(i0 != idx);
                                assert(self.history@[i0] == hc[i0]);
                                assert(self.history@[i0].name@ == samples@[j0].name@
                                    && self.history@[i0].snap == snap_for(
                                    h0,
                                    samples@[j0],
                                    now_ms,
                                    debounce_ms,
                                ));
                            }
                        }
                        assert forall|i: int|
                            0 <= i < self.history@.len() implies h0.contains(
                            #[trigger] self.history@[i],
                        ) || exists|j0: int|
                            0 <= j0 < j + 1 && !ignored_name(samples@[j0].name@)
                                && self.history@[i].name@ == samples@[j0].name@
                                && self.history@[i].snap == snap_for(
                                h0,
                                samples@[j0],
                                now_ms,
                                debounce_ms,
                            ) by {
                            if i == idx {
                                assert(0 <= j < j + 1 && !ignored_name(samples@[j as int].name@)
                                    && self.history@[i].name@ == samples@[j as int].name@
                                    && self.history@[i].snap == snap_for(
                                    h0,
                                    samples@[j as int],
                                    now_ms,
                                    debounce_ms,
                                ));
                            } else {
                                assert(self.history@[i] == hc[i]);
                            }
                        }
                        assert forall|i: int| 0 <= i < h0.len()
                            implies #[trigger] self.history@[i].name@ == h0[i].name@ by {
                            assert(hc[i].name@ == h0[i].name@);
                        }
                        assert forall|i: int|
                            0 <= i < h0.len() && (forall|j0: int|
                                0 <= j0 < j + 1 ==> #[trigger] samples@[j0].name@ != h0[i].name@)
                            implies self.history@.contains(#[trigger] h0[i]) by {
                            assert(hc.contains(h0[i]));
                            let k = choose|k: int| 0 <= k < hc.len() && #[trigger] hc[k] == h0[i];
                            assert(samples@[j as int].name@ != h0[i].name@);
                            assert(k != idx);
                            assert(self.history@[k] == h0[i]);
                        }
                    }
                } else {
                    proof {
                        let f0 = find_entry(h0, name_j, 0);
                        if f0 < h0.len() {
                            assert(h0[f0].name@ == name_j);
                            assert(self.history@[f0].name@ == name_j);
                            assert(hc[f0].name@ != name_j);
                            assert(false);
                        }
                        assert(target_snap == snap_fresh(
                            samples@[j as int].total_rx,
                            samples@[j as int].total_tx,
                            now_ms,
                        ));
                    }
                    let entry = AdapterTraffic {
                        name: samples[j].name.clone(),
                        snap: TrafficSnapshot {
                            total_rx: samples[j].total_rx,
                            total_tx: samples[j].total_tx,
                            last_update_ms: now_ms,
                            rx_speed: 0,
                            tx_speed: 0,
                        },
                    };
                    self.history.push(entry);
                    rx_speed = 0;
                    tx_speed = 0;
                    proof {
                        let li = hc.len() as int;
                        assert(self.history@[li].name@ == name_j);
                        assert(self.history@[li].snap == target_snap);
                        assert(forall|i: int| 0 <= i < hc.len() ==> self.history@[i] == #[trigger] hc[i]);
                        assert forall|p: int, q: int|
                            0 <= p < q < self.history@.len() implies self.history@[p].name@
                            != self.history@[q].name@ by {
                            if q < li {
                                assert(hc[p].name@ != hc[q].name@);
                            } else {
                                assert(hc[p].name@ != name_j);
                            }
                        }
                        assert forall|j0: int|
                            0 <= j0 < j + 1 && !ignored_name(#[trigger] samples@[j0].name@)
                            implies history_has(
                            self.history@,
                            samples@[j0].name@,
                            snap_for(h0, samples@[j0], now_ms, debounce_ms),
                        ) by {
                            if j0 == j {
                                assert(self.history@[li].name@ == samples@[j0].name@
                                    && self.history@[li].snap == snap_for(
                                    h0,
                                    samples@[j0],
                                    now_ms,
                                    debounce_ms,
                                ));
                            } else {
                                let i0 = choose|i0: int|
                                    0 <= i0 < hc.len() && hc[i0].name@ == samples@[j0].name@
                                        && #[trigger] hc[i0].snap == snap_for(
                                        h0,
                                        samples@[j0],
                                        now_ms,
                                        debounce_ms,
                                    );
                                assert(self.history@[i0] == hc[i0]);
                                assert(self.history@[i0].name@ == samples@[j0].name@
                                    && self.history@[i0].snap == snap_for(
                                    h0,
                                    samples@[j0],
                                    now_ms,
                                    debounce_ms,
                                ));
                            }
                        }
                        assert forall|i: int|
                            0 <= i < self.history@.len() implies h0.contains(
                            #[trigger] self.history@[i],
                        ) || exists|j0: int|
                            0 <= j0 < j + 1 && !ignored_name(samples@[j0].name@)
                                && self.history@[i].name@ == samples@[j0].name@
                                && self.history@[i].snap == snap_for(
                                h0,
                                samples@[j0],
                                now_ms,
                                debounce_ms,
                            ) by {
                            if i == li {
                                assert(0 <= j < j + 1 && !ignored_name(samples@[j as int].name@)
                                    && self.history@[i].name@ == samples@[j as int].name@
                                    && self.history@[i].snap == snap_for(
                                    h0,
                                    samples@[j as int],
                                    now_ms,
                                    debounce_ms,
                                ));
                            } else {
                                assert(self.history@[i] == hc[i]);
                            }
                        }
                        assert forall|i: int| 0 <= i < h0.len()
                            implies #[trigger] self.history@[i].name@ == h0[i].name@ by {
                            assert(hc[i].name@ == h0[i].name@);
                        }
                        assert forall|i: int|
                            0 <= i < h0.len() && (forall|j0: int|
                                0 <= j0 < j + 1 ==> #[trigger] samples@[j0].name@ != h0[i].name@)
                            implies self.history@.contains(#[trigger] h0[i]) by {
                            assert(hc.contains(h0[i]));
                            let k = choose|k: int| 0 <= k < hc.len() && #[trigger] hc[k] == h0[i];
                            assert(self.history@[k] == h0[i]);
                        }
                    }
                }
                let bl = baseline_for(&self.initial, &samples[j].name);
                let item = DisplayItem {
                    name: samples[j].name.clone(),
                    rx_speed,
                    tx_speed,
                    session_rx: sat_sub_u64(samples[j].total_rx, bl.0),
                    session_tx: sat_sub_u64(samples[j].total_tx, bl.1),
                    total_rx: samples[j].total_rx,
                    total_tx: samples[j].total_tx,
                };
                proof {
                    assert(item == item_for(h0, b0, samples@[j as int], now_ms, debounce_ms));
                }
                let ghost items_before = items@;
                items.push(item);
                proof {
                    srcs = srcs.push(j as int);
                    assert(forall|i: int|
                        0 <= i < items_before.len() ==> items@[i] == #[trigger] items_before[i]);
                    assert forall|j0: int|
                        0 <= j0 < j + 1 && !ignored_name(#[trigger] samples@[j0].name@)
                        implies items@.contains(
                        item_for(h0, b0, samples@[j0], now_ms, debounce_ms),
                    ) by {
                        if j0 == j {
                            assert(items@[items@.len() - 1] == item_for(
                                h0,
                                b0,
                                samples@[j0],
                                now_ms,
                                debounce_ms,
                            ));
                        } else {
                            let k = choose|k: int|
                                0 <= k < items_before.len() && #[trigger] items_before[k]
                                    == item_for(h0, b0, samples@[j0], now_ms, debounce_ms);
                            assert(items@[k] == item_for(h0, b0, samples@[j0], now_ms, debounce_ms));
                        }
                    }
                    assert forall|i: int|
                        0 <= i < items@.len() implies 0 <= #[trigger] srcs[i] < j + 1
                        && !ignored_name(samples@[srcs[i]].name@) && items@[i] == item_for(
                        h0,
                        b0,
                        samples@[srcs[i]],
                        now_ms,
                        debounce_ms,
                    ) by {
                        if i < items@.len() - 1 {
                            assert(items@[i] == items_before[i]);
                        } else {
                            assert(srcs[i] == j as int);
                            assert(items@[i] == item_for(
                                h0,
                                b0,
                                samples@[j as int],
                                now_ms,
                                debounce_ms,
                            ));
                        }
                    }
                }
            }
            j = j + 1;
        }
        proof {
            assert(samples@.take(n as int) =~= samples@);
        }
        let ghost pre_sort = items@;
        sort_display(&mut items);
        proof {
            assert forall|i: int|
                0 <= i < items@.len() implies exists|j0: int|
                0 <= j0 < samples@.len() && !ignored_name(samples@[j0].name@)
                    && #[trigger] items@[i] == item_for(h0, b0, samples@[j0], now_ms, debounce_ms) by {
                assert(items@.contains(items@[i]));
                assert(pre_sort.contains(items@[i]));
                let k = choose|k: int| 0 <= k < pre_sort.len() && #[trigger] pre_sort[k] == items@[i];
                let j0 = srcs[k];
                assert(0 <= j0 < samples@.len() && !ignored_name(samples@[j0].name@) && items@[i]
                    == item_for(h0, b0, samples@[j0], now_ms, debounce_ms));
            }
        }
        self.display_items = items;
        let len = self.display_items.len();
        match self.selected {
            Some(i) => {
                if i >= len {
                    if len == 0 {
                        self.selected = None;
                    } else {
                        self.selected = Some(len - 1);
                    }
                }
            },
            None => {},
        }
    }

    /// Moves the cursor to the next row, wrapping; does nothing while no
    /// rows are shown.
    pub fn next(&mut self)
        requires
            old(self).wf(),
        ensures
            final(self).wf(),
            final(self).selected == spec_next_index(
                old(self).selected,
                old(self).display_items@.len(),
            ),
            final(self).history == old(self).history,
            final(self).initial == old(self).initial,
            final(self).display_items == old(self).display_items,
    {
        self.selected = next_index(self.selected, self.display_items.len());
    }

    /// Moves the cursor to the previous row, wrapping; does nothing while no
    /// rows are shown.
    pub fn previous(&mut self)
        requires
            old(self).wf(),
        ensures
            final(self).wf(),
            final(self).selected == spec_previous_index(
                old(self).selected,
                old(self).display_items@.len(),
            ),
            final(self).history == old(self).history,
            final(self).initial == old(self).initial,
            final(self).display_items == old(self).display_items,
    {
        self.selected = previous_index(self.selected, self.display_items.len());
    }
}

/// Steps every sample's adapter entry (no filtering): the traffic view of
/// the adapter catalogue, which tracks rates for all adapters.
pub fn track_all(
    history: &mut Vec<AdapterTraffic>,
    samples: &Vec<AdapterSample>,
    now_ms: u64,
    debounce_ms: u64,
)
    requires
        unique_names(old(history)@),
        distinct_names(samples@),
    ensures
        unique_names(final(history)@),
        forall|j: int|
            0 <= j < samples@.len() ==> history_has(
                final(history)@,
                #[trigger] samples@[j].name@,
                snap_for(old(history)@, samples@[j], now_ms, debounce_ms),
            ),
        forall|i: int|
            0 <= i < final(history)@.len() ==> old(history)@.contains(
                #[trigger] final(history)@[i],
            ) || exists|j: int|
                0 <= j < samples@.len() && final(history)@[i].name@ == samples@[j].name@
                    && final(history)@[i].snap == snap_for(old(history)@, samples@[j], now_ms, debounce_ms),
{
    let ghost h0 = history@;
    let n = samples.len();
    let mut j: usize = 0;
    while j < n
        invariant
            n == samples@.len(),
            0 <= j <= n,
            distinct_names(samples@),
            h0 == old(history)@,
            unique_names(h0),
            unique_names(history@),
            forall|j0: int|
                0 <= j0 < j ==> history_has(
                    history@,
                    #[trigger] samples@[j0].name@,
                    snap_for(h0, samples@[j0], now_ms, debounce_ms),
                ),
            forall|i: int|
                0 <= i < history@.len() ==> h0.contains(#[trigger] history@[i]) || exists|j0: int|
                    0 <= j0 < j && history@[i].name@ == samples@[j0].name@ && history@[i].snap
                        == snap_for(h0, samples@[j0], now_ms, debounce_ms),
            h0.len() <= history@.len(),
            forall|i: int| 0 <= i < h0.len() ==> #[trigger] history@[i].name@ == h0[i].name@,
        decreases n - j,
    {
        let ghost hc = history@;
        let ghost name_j = samples@[j as int].name@;
        let ghost target_snap = snap_for(h0, samples@[j as int], now_ms, debounce_ms);
        let idx = find_history(history, &samples[j].name);
        proof {
            lemma_find_entry(hc, name_j, 0);
            lemma_find_entry(h0, name_j, 0);
        }
        if idx < history.len() {
            proof {
                let e = hc[idx as int];
                assert(h0.contains(e)) by {
                    if !h0.contains(e) {
                        let j0 = choose|j0: int|
                            0 <= j0 < j && e.name@ == samples@[j0].name@ && e.snap == snap_for(
                                h0,
                                samples@[j0],
                                now_ms,
                                debounce_ms,
                            );
                        assert(samples@[j0].name@ == name_j);
                        assert(false);
                    }
                }
                let k = choose|k: int| 0 <= k < h0.len() && #[trigger] h0[k] == e;
                let f0 = find_entry(h0, name_j, 0);
                assert(f0 == k) by {
                    if f0 < k {
                        assert(h0[f0].name@ == h0[k].name@);
                    }
                    if f0 > k {
                        assert(h0[k].name@ != name_j);
                    }
                }
                assert(h0[f0].snap == e.snap);
            }
            let snap0 = history[idx].snap;
            let mut snap1 = snap0;
            step_snapshot(&mut snap1, samples[j].total_rx, samples[j].total_tx, now_ms, debounce_ms);
            history[idx].snap = snap1;
            proof {
                assert(history@[idx as int].name@ == name_j);
                assert(history@[idx as int].snap == target_snap);
                assert(forall|i: int|
                    0 <= i < hc.len() && i != idx ==> history@[i] == #[trigger] hc[i]);
                assert forall|p: int, q: int|
                    0 <= p < q < history@.len() implies history@[p].name@ != history@[q].name@ by {
                    assert(hc[p].name@ != hc[q].name@);
                    assert(history@[p].name@ == hc[p].name@);
                    assert(history@[q].name@ == hc[q].name@);
                }
                assert forall|j0: int| 0 <= j0 < j + 1 implies history_has(
                    history@,
                    #[trigger] samples@[j0].name@,
                    snap_for(h0, samples@[j0], now_ms, debounce_ms),
                ) by {
                    if j0 == j {
                        assert(history@[idx as int].name@ == samples@[j0].name@
                            && history@[idx as int].snap == snap_for(
                            h0,
                            samples@[j0],
                            now_ms,
                            debounce_ms,
                        ));
                    } else {
                        let i0 = choose|i0: int|
                            0 <= i0 < hc.len() && hc[i0].name@ == samples@[j0].name@
                                && #[trigger] hc[i0].snap == snap_for(
                                h0,
                                samples@[j0],
                                now_ms,
                                debounce_ms,
                            );
                        assert(i0 != idx);
                        assert(history@[i0] == hc[i0]);
                        assert(history@[i0].name@ == samples@[j0].name@ && history@[i0].snap
                            == snap_for(h0, samples@[j0], now_ms, debounce_ms));
                    }
                }
                assert forall|i: int|
                    0 <= i < history@.len() implies h0.contains(#[trigger] history@[i]) || exists|
                    j0: int,
                |
                    0 <= j0 < j + 1 && history@[i].name@ == samples@[j0].name@ && history@[i].snap
                        == snap_for(h0, samples@[j0], now_ms, debounce_ms) by {
                    if i == idx {
                        assert(0 <= j < j + 1 && history@[i].name@ == samples@[j as int].name@
                            && history@[i].snap == snap_for(
                            h0,
                            samples@[j as int],
                            now_ms,
                            debounce_ms,
                        ));
                    } else {
                        assert(history@[i] == hc[i]);
                    }
                }
                assert forall|i: int| 0 <= i < h0.len() implies #[trigger] history@[i].name@
                    == h0[i].name@ by {
                    assert(hc[i].name@ == h0[i].name@);
                }
            }
        } else {
            proof {
                let f0 = find_entry(h0, name_j, 0);
                if f0 < h0.len() {
                    assert(h0[f0].name@ == name_j);
                    assert(history@[f0].name@ == name_j);
                    assert(hc[f0].name@ != name_j);
                    assert(false);
                }
                assert(target_snap == snap_fresh(
                    samples@[j as int].total_rx,
                    samples@[j as int].total_tx,
                    now_ms,
                ));
            }
            let entry = AdapterTraffic {
                name: samples[j].name.clone(),
                snap: TrafficSnapshot {
                    total_rx: samples[j].total_rx,
                    total_tx: samples[j].total_tx,
                    last_update_ms: now_ms,
                    rx_speed: 0,
                    tx_speed: 0,
                },
            };
            history.push(entry);
            proof {
                let li = hc.len() as int;
                assert(history@[li].name@ == name_j);
                assert(history@[li].snap == target_snap);
                assert(forall|i: int| 0 <= i < hc.len() ==> history@[i] == #[trigger] hc[i]);
                assert forall|p: int, q: int|
                    0 <= p < q < history@.len() implies history@[p].name@ != history@[q].name@ by {
                    if q < li {
                        assert(hc[p].name@ != hc[q].name@);
                    } else {
                        assert(hc[p].name@ != name_j);
                    }
                }
                assert forall|j0: int| 0 <= j0 < j + 1 implies history_has(
                    history@,
                    #[trigger] samples@[j0].name@,
                    snap_for(h0, samples@[j0], now_ms, debounce_ms),
                ) by {
                    if j0 == j {
                        assert(history@[li].name@ == samples@[j0].name@ && history@[li].snap
                            == snap_for(h0, samples@[j0], now_ms, debounce_ms));
                    } else {
                        let i0 = choose|i0: int|
                            0 <= i0 < hc.len() && hc[i0].name@ == samples@[j0].name@
                                && #[trigger] hc[i0].snap == snap_for(
                                h0,
                                samples@[j0],
                                now_ms,
                                debounce_ms,
                            );
                        assert(history@[i0] == hc[i0]);
                        assert(history@[i0].name@ == samples@[j0].name@ && history@[i0].snap
                            == snap_for(h0, samples@[j0], now_ms, debounce_ms));
                    }
                }
                assert forall|i: int|
                    0 <= i < history@.len() implies h0.contains(#[trigger] history@[i]) || exists|
                    j0: int,
                |
                    0 <= j0 < j + 1 && history@[i].name@ == samples@[j0].name@ && history@[i].snap
                        == snap_for(h0, samples@[j0], now_ms, debounce_ms) by {
                    if i == li {
                        assert(0 <= j < j + 1 && history@[i].name@ == samples@[j as int].name@
                            && history@[i].snap == snap_for(
                            h0,
                            samples@[j as int],
                            now_ms,
                            debounce_ms,
                        ));
                    } else {
                        assert(history@[i] == hc[i]);
                    }
                }
                assert forall|i: int| 0 <= i < h0.len() implies #[trigger] history@[i].name@
                    == h0[i].name@ by {
                    assert(hc[i].name@ == h0[i].name@);
                }
            }
        }
        j = j + 1;
    }
}

} // verus!
