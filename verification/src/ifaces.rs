//! The adapter catalogue: immutable per-adapter snapshots as queried from
//! the OS, a score that picks the most relevant adapter, the default scan
//! target derived from it, and the catalogue's selection state.
//!
//! Querying the OS for the adapters is the front end's business; it hands
//! the finished `InterfaceInfo` records in.

use vstd::prelude::*;

verus! {

use crate::ip;
use crate::nav::{next_index, previous_index, spec_next_index, spec_previous_index};
use crate::text::ascii_chars;
use crate::traffic::{
    distinct_names,
    history_has,
    snap_for,
    track_all,
    unique_names,
    AdapterSample,
    AdapterTraffic,
};

/// One network adapter, an immutable snapshot replaced wholesale on reload.
#[derive(Clone)]
pub struct InterfaceInfo {
    /// Adapter name.
    pub name: String,
    /// Human-readable description.
    pub description: String,
    /// MAC address, empty when unknown.
    pub mac: String,
    /// IPv4 addresses in dotted-decimal text.
    pub ipv4: Vec<String>,
    /// IPv6 addresses in text.
    pub ipv6: Vec<String>,
    /// Whether the adapter is operationally up.
    pub is_up: bool,
    /// The Wi-Fi network joined, if any.
    pub ssid: Option<String>,
    /// Whether the address was assigned by DHCP.
    pub dhcp_enabled: bool,
    /// Physical hardware rather than a virtual adapter.
    pub is_physical: bool,
    /// OS-reported interface type label.
    pub interface_type: String,
    /// The adapter's network in CIDR notation, if known.
    pub cidr: Option<String>,
}

/// Relevance of an adapter: up weighs most, then physical and addressed,
/// DHCP breaks ties.
pub open spec fn spec_score(i: InterfaceInfo) -> int {
    (if i.is_up {
        10int
    } else {
        0int
    }) + (if i.is_physical {
        5int
    } else {
        0int
    }) + (if i.ipv4@.len() > 0 {
        5int
    } else {
        0int
    }) + (if i.dhcp_enabled {
        1int
    } else {
        0int
    })
}

/// Relevance score of one adapter.
pub fn score_interface(iface: &InterfaceInfo) -> (r: u8)
    ensures
        r as int == spec_score(*iface),
{
    let mut score: u8 = 0;
    if iface.is_up {
        score = score + 10;
    }
    if iface.is_physical {
        score = score + 5;
    }
    if iface.ipv4.len() > 0 {
        score = score + 5;
    }
    if iface.dhcp_enabled {
        score = score + 1;
    }
    score
}

/// Index of the highest-scoring adapter, the earliest of equals; `None`
/// only for an empty catalogue.
pub fn best_interface(interfaces: &Vec<InterfaceInfo>) -> (r: Option<usize>)
    ensures
        match r {
            Some(i) => {
                &&& i < interfaces@.len()
                &&& forall|j: int|
                    0 <= j < interfaces@.len() ==> spec_score(#[trigger] interfaces@[j])
                        <= spec_score(interfaces@[i as int])
                &&& forall|j: int|
                    0 <= j < i ==> spec_score(#[trigger] interfaces@[j]) < spec_score(
                        interfaces@[i as int],
                    )
            },
            None => interfaces@.len() == 0,
        },
{
    if interfaces.len() == 0 {
        return None;
    }
    let mut best: usize = 0;
    let mut best_score = score_interface(&interfaces[0]);
    let mut j: usize = 1;
    while j < interfaces.len()
        invariant
            1 <= j <= interfaces@.len(),
            best < j,
            best_score as int == spec_score(interfaces@[best as int]),
            forall|k: int|
                0 <= k < j ==> spec_score(#[trigger] interfaces@[k]) <= spec_score(
                    interfaces@[best as int],
                ),
            forall|k: int|
                0 <= k < best ==> spec_score(#[trigger] interfaces@[k]) < spec_score(
                    interfaces@[best as int],
                ),
        decreases interfaces@.len() - j,
    {
        let sc = score_interface(&interfaces[j]);
        if sc > best_score {
            best = j;
            best_score = sc;
        }
        j = j + 1;
    }
    Some(best)
}

/// `i` qualifies as the source of the default scan target: up, physical,
/// and holding an IPv4 address.
pub open spec fn is_candidate(i: InterfaceInfo) -> bool {
    i.is_up && i.is_physical && i.ipv4@.len() > 0
}

/// First candidate adapter at or after `from`; the length when none.
pub open spec fn find_candidate(s: Seq<InterfaceInfo>, from: int) -> int
    recommends
        0 <= from <= s.len(),
    decreases s.len() - from when 0 <= from <= s.len()
{
    if from >= s.len() {
        s.len() as int
    } else if is_candidate(s[from]) {
        from
    } else {
        find_candidate(s, from + 1)
    }
}

/// `find_candidate` returns the first candidate, when there is one.
pub proof fn lemma_find_candidate(s: Seq<InterfaceInfo>, from: int)
    requires
        0 <= from <= s.len(),
    ensures
        from <= find_candidate(s, from) <= s.len(),
        find_candidate(s, from) < s.len() ==> is_candidate(s[find_candidate(s, from)]),
        forall|j: int| from <= j < find_candidate(s, from) ==> !is_candidate(#[trigger] s[j]),
    decreases s.len() - from,
{
    if from < s.len() && !is_candidate(s[from]) {
        lemma_find_candidate(s, from + 1);
    }
}

/// The address the default scan target is built around: the first IPv4
/// address of the first up, physical, addressed adapter; 192.168.1.0 when
/// no adapter qualifies or its address text does not parse.
pub open spec fn spec_default_ip(s: Seq<InterfaceInfo>) -> u32 {
    let i = find_candidate(s, 0);
    if i < s.len() {
        match ip::spec_parse_ipv4(s[i].ipv4@[0]@) {
            Some(addr) => addr,
            None => 0xC0A80100u32,
        }
    } else {
        0xC0A80100u32
    }
}

/// The default scan target: the chosen adapter's first IPv4 address with a
/// /24 prefix, "192.168.1.0/24" when none qualifies.
pub fn default_cidr_for(interfaces: &Vec<InterfaceInfo>) -> (r: Vec<char>)
    ensures
        ip::spec_parse_cidr(r@) == Some((spec_default_ip(interfaces@), 24u8)),
{
    proof {
        lemma_find_candidate(interfaces@, 0);
    }
    let ghost target = find_candidate(interfaces@, 0);
    let n = interfaces.len();
    let mut i: usize = 0;
    while i < n
        invariant
            n == interfaces@.len(),
            0 <= i <= n,
            target == find_candidate(interfaces@, 0),
            0 <= target <= n,
            target < n ==> is_candidate(interfaces@[target]),
            forall|j: int| 0 <= j < target ==> !is_candidate(#[trigger] interfaces@[j]),
            i <= target,
        decreases n - i,
    {
        let iface = &interfaces[i];
        if iface.is_up && iface.is_physical && iface.ipv4.len() > 0 {
            proof {
                if i < target {
                    assert(!is_candidate(interfaces@[i as int]));
                }
            }
            let first = iface.ipv4[0].as_str();
            match ascii_chars(first) {
                Some(v) => {
                    match ip::parse_ipv4(&v) {
                        Some(addr) => {
                            return ip::format_cidr(addr, 24);
                        },
                        None => {
                            return ip::format_cidr(0xC0A80100, 24);
                        },
                    }
                },
                None => {
                    proof {
                        if ip::spec_parse_ipv4(interfaces@[i as int].ipv4@[0]@) is Some {
                            ip::lemma_parse_ipv4_ascii(interfaces@[i as int].ipv4@[0]@);
                        }
                    }
                    return ip::format_cidr(0xC0A80100, 24);
                },
            }
        }
        proof {
            if i == target {
                assert(is_candidate(interfaces@[target]));
            }
        }
        i = i + 1;
    }
    ip::format_cidr(0xC0A80100, 24)
}

/// Adapter catalogue state as the renderer sees it.
pub struct AdapterModule {
    /// The adapters, replaced wholesale on reload.
    pub interfaces: Vec<InterfaceInfo>,
    /// Cursor over the adapter list.
    pub selected: Option<usize>,
    /// Per-adapter rate-tracking entries, unique by name.
    pub history: Vec<AdapterTraffic>,
}

impl AdapterModule {
    /// Tracked entries unique by name, cursor inside the adapter list.
    pub open spec fn wf(&self) -> bool {
        &&& unique_names(self.history@)
        &&& match self.selected {
            Some(i) => i < self.interfaces@.len(),
            None => true,
        }
    }

    /// A catalogue over the given adapters, the first selected when any
    /// exist.
    pub fn new(interfaces: Vec<InterfaceInfo>) -> (r: AdapterModule)
        ensures
            r.wf(),
            r.interfaces@ == interfaces@,
            r.selected == (if interfaces@.len() > 0 {
                Some(0usize)
            } else {
                None::<usize>
            }),
            r.history@.len() == 0,
    {
        let selected: Option<usize> = if interfaces.len() > 0 {
            Some(0)
        } else {
            None
        };
        AdapterModule { interfaces, selected, history: Vec::new() }
    }

    /// Tick-driven refresh of the per-adapter rates, for every adapter.
    pub fn update(&mut self, samples: &Vec<AdapterSample>, now_ms: u64, debounce_ms: u64)
        requires
            old(self).wf(),
            distinct_names(samples@),
        ensures
            final(self).wf(),
            final(self).interfaces == old(self).interfaces,
            final(self).selected == old(self).selected,
            forall|j: int|
                0 <= j < samples@.len() ==> history_has(
                    final(self).history@,
                    #[trigger] samples@[j].name@,
                    snap_for(old(self).history@, samples@[j], now_ms, debounce_ms),
                ),
            forall|i: int|
                0 <= i < final(self).history@.len() ==> old(self).history@.contains(
                    #[trigger] final(self).history@[i],
                ) || exists|j: int|
                    0 <= j < samples@.len() && final(self).history@[i].name@ == samples@[j].name@
                        && final(self).history@[i].snap == snap_for(old(self).history@, samples@[j], now_ms, debounce_ms),
    {
        track_all(&mut self.history, samples, now_ms, debounce_ms);
    }

    /// Replaces the adapter list, keeping the selection where it is still
    /// valid: clamped to the last row when the list shrank past it, cleared
    /// when the list emptied, and set to the first row when a selection
    /// appears possible for the first time.
    pub fn reload(&mut self, interfaces: Vec<InterfaceInfo>)
        requires
            old(self).wf(),
        ensures
            final(self).wf(),
            final(self).interfaces@ == interfaces@,
            final(self).history == old(self).history,
            final(self).selected == (match old(self).selected {
                Some(i) => if i < interfaces@.len() {
                    Some(i)
                } else if interfaces@.len() > 0 {
                    Some((interfaces@.len() - 1) as usize)
                } else {
                    None::<usize>
                },
                None => if interfaces@.len() > 0 {
                    Some(0usize)
                } else {
                    None::<usize>
                },
            }),
    {
        self.interfaces = interfaces;
        let len = self.interfaces.len();
        match self.selected {
            Some(i) => {
                if i >= len {
                    if len > 0 {
                        self.selected = Some(len - 1);
                    } else {
                        self.selected = None;
                    }
                }
            },
            None => {
                if len > 0 {
                    self.selected = Some(0);
                }
            },
        }
    }

    /// Moves the cursor to the next adapter, wrapping; does nothing while
    /// the catalogue is empty.
    pub fn next(&mut self)
        requires
            old(self).wf(),
        ensures
            final(self).wf(),
            final(self).selected == spec_next_index(
                old(self).selected,
                old(self).interfaces@.len(),
            ),
            final(self).interfaces == old(self).interfaces,
            final(self).history == old(self).history,
    {
        self.selected = next_index(self.selected, self.interfaces.len());
    }

    /// Moves the cursor to the previous adapter, wrapping; does nothing
    /// while the catalogue is empty.
    pub fn previous(&mut self)
        requires
            old(self).wf(),
        ensures
            final(self).wf(),
            final(self).selected == spec_previous_index(
                old(self).selected,
                old(self).interfaces@.len(),
            ),
            final(self).interfaces == old(self).interfaces,
            final(self).history == old(self).history,
    {
        self.selected = previous_index(self.selected, self.interfaces.len());
    }
}

} // verus!
