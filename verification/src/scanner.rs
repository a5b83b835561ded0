//! Subnet scan run: lifecycle `Idle -> Scanning -> Done`, the precomputed
//! host total, the completed-host counter, cooperative cancellation, and the
//! batch drain that keeps the visible results sorted by address.
//!
//! The scan's probing itself (neighbour resolution, reverse DNS) is network
//! I/O and lives outside this crate; probe tasks hand finished `ScanResult`
//! records and a completion count back, and `update` folds them in at tick
//! time.

use vstd::prelude::*;

verus! {

use crate::ip;
use crate::nav::{next_index, previous_index, spec_next_index, spec_previous_index};

/// One discovered host.
pub struct ScanResult {
    /// IPv4 address in network numeric order.
    pub ip: u32,
    /// MAC address as reported by neighbour resolution.
    pub mac: String,
    /// Resolved host name; empty when resolution failed.
    pub hostname: String,
}

/// Lifecycle of a scan run.
#[derive(Clone, Copy, PartialEq, Eq, Structural, Debug)]
pub enum ScanStatus {
    /// No run was started yet.
    Idle,
    /// A run is in flight.
    Scanning,
    /// The run finished or was stopped.
    Done,
}

/// The visible results are strictly ascending by address, so no address
/// appears twice.
pub open spec fn sorted_by_ip(s: Seq<ScanResult>) -> bool {
    forall|i: int, j: int| 0 <= i < j < s.len() ==> s[i].ip < s[j].ip
}

/// Some record in `s` carries the address `ip`.
pub open spec fn has_ip(s: Seq<ScanResult>, ip: u32) -> bool {
    exists|i: int| 0 <= i < s.len() && s[i].ip == ip
}

/// Subnet scanner state as the renderer sees it. Mutate it only through the
/// methods below; they keep `wf` intact.
pub struct ScannerModule {
    /// The operator's target text ("address/prefix").
    pub cidr_input: Vec<char>,
    /// Collected results, ascending by address.
    pub results: Vec<ScanResult>,
    /// Lifecycle of the current run.
    pub status: ScanStatus,
    /// Cursor over the result rows.
    pub selected: Option<usize>,
    /// Progress denominator fixed at scan start.
    pub total: u64,
    /// Hosts whose probes have finished, never past `total`.
    pub completed: u64,
    /// Cooperative cancellation flag.
    pub cancel: bool,
}

impl ScannerModule {
    /// Results sorted and unique by address, completed never past the total,
    /// and the cursor inside the result list.
    pub open spec fn wf(&self) -> bool {
        &&& sorted_by_ip(self.results@)
        &&& self.completed <= self.total
        &&& match self.selected {
            Some(i) => i < self.results@.len(),
            None => true,
        }
    }

    /// A fresh scanner showing the given target text and no run.
    pub fn new(cidr: Vec<char>) -> (r: ScannerModule)
        ensures
            r.wf(),
            r.cidr_input@ == cidr@,
            r.status is Idle,
            r.results@.len() == 0,
            r.completed == 0,
            r.total == 0,
            r.selected is None,
            !r.cancel,
    {
        ScannerModule {
            cidr_input: cidr,
            results: Vec::new(),
            status: ScanStatus::Idle,
            selected: None,
            total: 0,
            completed: 0,
            cancel: false,
        }
    }

    /// The target text as shown to the operator.
    pub fn cidr_input(&self) -> (r: &Vec<char>)
        ensures
            r@ == self.cidr_input@,
    {
        &self.cidr_input
    }

    /// The collected results, ascending by address.
    pub fn results(&self) -> (r: &Vec<ScanResult>)
        ensures
            r@ == self.results@,
    {
        &self.results
    }

    /// Current lifecycle state.
    pub fn status(&self) -> (r: ScanStatus)
        ensures
            r == self.status,
    {
        self.status
    }

    /// Hosts whose probes have finished.
    pub fn completed(&self) -> (r: u64)
        ensures
            r == self.completed,
    {
        self.completed
    }

    /// The progress denominator fixed at scan start.
    pub fn total_hosts(&self) -> (r: u64)
        ensures
            r == self.total,
    {
        self.total
    }

    /// Cursor over the result rows.
    pub fn selected(&self) -> (r: Option<usize>)
        ensures
            r == self.selected,
    {
        self.selected
    }

    /// The cancellation flag probe tasks poll.
    pub fn is_cancelled(&self) -> (r: bool)
        ensures
            r == self.cancel,
    {
        self.cancel
    }

    /// Replaces the target text.
    pub fn set_target(&mut self, cidr: Vec<char>)
        requires
            old(self).wf(),
        ensures
            final(self).wf(),
            final(self).cidr_input@ == cidr@,
            *final(self) == (ScannerModule { cidr_input: final(self).cidr_input, ..*old(self) }),
    {
        self.cidr_input = cidr;
    }

    /// Appends one character of target text; only digits, dots and slashes
    /// are taken.
    pub fn edit_input(&mut self, c: char)
        requires
            old(self).wf(),
        ensures
            final(self).wf(),
            final(self).cidr_input@ == (if ip::is_digit(c) || c == '.' || c == '/' {
                old(self).cidr_input@.push(c)
            } else {
                old(self).cidr_input@
            }),
            *final(self) == (ScannerModule { cidr_input: final(self).cidr_input, ..*old(self) }),
    {
        let cu = c as u32;
        if (48 <= cu && cu <= 57) || c == '.' || c == '/' {
            self.cidr_input.push(c);
        }
    }

    /// Removes the last character of target text, if any.
    pub fn pop_input(&mut self)
        requires
            old(self).wf(),
        ensures
            final(self).wf(),
            final(self).cidr_input@ == (if old(self).cidr_input@.len() > 0 {
                old(self).cidr_input@.drop_last()
            } else {
                old(self).cidr_input@
            }),
            *final(self) == (ScannerModule { cidr_input: final(self).cidr_input, ..*old(self) }),
    {
        if self.cidr_input.len() > 0 {
            let _ = self.cidr_input.pop();
            proof {
                assert(self.cidr_input@ =~= old(self).cidr_input@.drop_last());
            }
        }
    }

    /// How many hosts a scan of the current target would dispatch; `None`
    /// when the target text is not a CIDR block.
    pub fn calculate_ip_count(&self) -> (r: Option<u64>)
        ensures
            r == (match ip::spec_parse_cidr(self.cidr_input@) {
                Some((ip_val, p)) => Some(ip::spec_host_count(p)),
                None => None::<u64>,
            }),
    {
        proof {
            ip::lemma_parse_cidr_prefix_bound(self.cidr_input@);
        }
        match ip::parse_cidr(&self.cidr_input) {
            Some((_ip_val, p)) => Some(ip::host_count(p)),
            None => None,
        }
    }

    /// Begins a new run: clears the results and the cursor, resets the
    /// counter and the cancellation flag, and fixes the progress denominator
    /// from the current target text. A malformed target gives a total of
    /// zero, so the run completes at the next tick with nothing dispatched.
    pub fn start_scan(&mut self)
        requires
            old(self).wf(),
        ensures
            final(self).wf(),
            final(self).cidr_input@ == old(self).cidr_input@,
            final(self).status is Scanning,
            final(self).results@.len() == 0,
            final(self).completed == 0,
            !final(self).cancel,
            final(self).selected is None,
            final(self).total == (match ip::spec_parse_cidr(old(self).cidr_input@) {
                Some((ip_val, p)) => ip::spec_host_count(p),
                None => 0,
            }),
    {
        self.results = Vec::new();
        self.status = ScanStatus::Scanning;
        self.selected = None;
        self.completed = 0;
        self.cancel = false;
        proof {
            ip::lemma_parse_cidr_prefix_bound(self.cidr_input@);
        }
        self.total = match ip::parse_cidr(&self.cidr_input) {
            Some((_ip_val, p)) => ip::host_count(p),
            None => 0,
        };
    }

    /// The addresses a run over the current target text dispatches, in
    /// ascending order: for a prefix shorter than 31 every address of the
    /// block except the network and broadcast addresses, for /31 and /32 all
    /// of them. A malformed target dispatches nothing.
    pub fn scan_targets(&self) -> (r: Vec<u32>)
        ensures
            match ip::spec_parse_cidr(self.cidr_input@) {
                Some((ip_val, p)) => {
                    let base = ip_val & ip::spec_mask(p);
                    &&& r@.len() == ip::spec_host_count(p)
                    &&& (p < 31 ==> forall|i: int| 0 <= i < r@.len() ==> r@[i] == base + 1 + i)
                    &&& (p >= 31 ==> forall|i: int| 0 <= i < r@.len() ==> r@[i] == base + i)
                },
                None => r@.len() == 0,
            },
    {
        proof {
            ip::lemma_parse_cidr_prefix_bound(self.cidr_input@);
        }
        match ip::parse_cidr(&self.cidr_input) {
            Some((ip_val, p)) => {
                let mask = ip::prefix_mask(p);
                let base = ip_val & mask;
                proof {
                    assert((ip_val & mask) & mask == (ip_val & mask)) by (bit_vector);
                }
                ip::host_addresses(base, p)
            },
            None => Vec::new(),
        }
    }

    /// Raises the cancellation flag; a run in flight is marked done at once.
    /// Results already collected are untouched, and stopping a run that is
    /// already done changes nothing but the flag.
    pub fn stop_scan(&mut self)
        requires
            old(self).wf(),
        ensures
            final(self).wf(),
            final(self).cancel,
            final(self).status == (if old(self).status is Scanning {
                ScanStatus::Done
            } else {
                old(self).status
            }),
            final(self).results == old(self).results,
            final(self).completed == old(self).completed,
            final(self).total == old(self).total,
            final(self).cidr_input == old(self).cidr_input,
            final(self).selected == old(self).selected,
    {
        self.cancel = true;
        if self.status == ScanStatus::Scanning {
            self.status = ScanStatus::Done;
        }
    }

    /// Tick-driven drain: folds a batch of probe results into the visible
    /// list (keeping it sorted and unique by address, first record per
    /// address kept), adopts the completed count clamped at the total, and
    /// marks the run done once every host completed or cancellation was
    /// observed.
    pub fn update(&mut self, incoming: Vec<ScanResult>, completed_now: u64)
        requires
            old(self).wf(),
        ensures
            final(self).wf(),
            final(self).cidr_input == old(self).cidr_input,
            final(self).total == old(self).total,
            final(self).cancel == old(self).cancel,
            final(self).completed == (if completed_now <= old(self).total {
                completed_now
            } else {
                old(self).total
            }),
            sorted_by_ip(final(self).results@),
            forall|a: u32|
                #[trigger] has_ip(final(self).results@, a) <==> has_ip(old(self).results@, a)
                    || has_ip(incoming@, a),
            forall|x: ScanResult|
                #[trigger] final(self).results@.contains(x) ==> old(self).results@.contains(x)
                    || incoming@.contains(x),
            forall|x: ScanResult|
                #[trigger] old(self).results@.contains(x) ==> final(self).results@.contains(x),
            final(self).status == (if old(self).status is Scanning && (completed_now >= old(
                self,
            ).total || old(self).cancel) {
                ScanStatus::Done
            } else {
                old(self).status
            }),
            final(self).selected == (if incoming@.len() > 0 && old(self).selected is None {
                Some(0usize)
            } else {
                old(self).selected
            }),
    {
        let got_any = incoming.len() > 0;
        let ghost inc0 = incoming@;
        let mut inc = incoming;
        while inc.len() > 0
            invariant
                sorted_by_ip(self.results@),
                inc@ == inc0.take(inc@.len() as int),
                inc@.len() <= inc0.len(),
                forall|a: u32|
                    #[trigger] has_ip(self.results@, a) <==> has_ip(old(self).results@, a)
                        || has_ip(inc0.skip(inc@.len() as int), a),
                forall|x: ScanResult|
                    #[trigger] self.results@.contains(x) ==> old(self).results@.contains(x)
                        || inc0.contains(x),
                forall|x: ScanResult|
                    #[trigger] old(self).results@.contains(x) ==> self.results@.contains(x),
                old(self).results@.len() <= self.results@.len(),
                self.cidr_input == old(self).cidr_input,
                self.total == old(self).total,
                self.cancel == old(self).cancel,
                self.completed == old(self).completed,
                self.status == old(self).status,
                self.selected == old(self).selected,
                old(self).wf(),
            decreases inc@.len(),
        {
            let ghost l = inc@.len() as int;
            let r = match inc.pop() {
                Some(r) => r,
                None => {
                    proof {
                        assert(false);
                    }
                    unreached()
                },
            };
            proof {
                assert(inc@ =~= inc0.take(l - 1));
                assert(r == inc0[l - 1]);
                lemma_has_ip_skip(inc0, l - 1);
                assert(inc0.contains(r)) by {
                    assert(inc0[l - 1] == r);
                }
            }
            insert_result(&mut self.results, r);
        }
        proof {
            assert(inc0.skip(0) =~= inc0);
        }
        if got_any {
            if self.selected.is_none() {
                self.selected = Some(0);
                proof {
                    assert(has_ip(inc0, inc0[0].ip));
                    assert(has_ip(self.results@, inc0[0].ip));
                    assert(self.results@.len() > 0);
                }
            }
        }
        self.completed = if completed_now <= self.total {
            completed_now
        } else {
            self.total
        };
        if self.status == ScanStatus::Scanning {
            if self.completed >= self.total || self.cancel {
                self.status = ScanStatus::Done;
            }
        }
    }

    /// Moves the cursor to the next result row, wrapping to the top; does
    /// nothing while there are no results.
    pub fn next(&mut self)
        requires
            old(self).wf(),
        ensures
            final(self).wf(),
            final(self).selected == spec_next_index(old(self).selected, old(self).results@.len()),
            *final(self) == (ScannerModule { selected: final(self).selected, ..*old(self) }),
    {
        self.selected = next_index(self.selected, self.results.len());
    }

    /// Moves the cursor to the previous result row, wrapping to the bottom;
    /// does nothing while there are no results.
    pub fn previous(&mut self)
        requires
            old(self).wf(),
        ensures
            final(self).wf(),
            final(self).selected == spec_previous_index(
                old(self).selected,
                old(self).results@.len(),
            ),
            *final(self) == (ScannerModule { selected: final(self).selected, ..*old(self) }),
    {
        self.selected = previous_index(self.selected, self.results.len());
    }
}

/// The visible results of a well-formed scanner are strictly ascending by
/// address, so no address appears twice, whatever drains have run.
pub proof fn lemma_results_ordered(s: &ScannerModule)
    requires
        s.wf(),
    ensures
        forall|i: int, j: int|
            0 <= i < j < s.results@.len() ==> s.results@[i].ip < s.results@[j].ip,
        forall|i: int, j: int|
            0 <= i < s.results@.len() && 0 <= j < s.results@.len() && i != j
                ==> s.results@[i].ip != s.results@[j].ip,
{
    assert forall|i: int, j: int|
        0 <= i < s.results@.len() && 0 <= j < s.results@.len() && i != j implies s.results@[i].ip
        != s.results@[j].ip by {
        if i < j {
            assert(s.results@[i].ip < s.results@[j].ip);
        } else {
            assert(s.results@[j].ip < s.results@[i].ip);
        }
    }
}

/// Splitting off the head of a suffix: the addresses present in
/// `s.skip(n)` are the address at `n` plus those in `s.skip(n + 1)`.
proof fn lemma_has_ip_skip(s: Seq<ScanResult>, n: int)
    requires
        0 <= n < s.len(),
    ensures
        forall|a: u32| #[trigger]
            has_ip(s.skip(n), a) <==> has_ip(s.skip(n + 1), a) || a == s[n].ip,
{
    assert forall|a: u32| #[trigger] has_ip(s.skip(n), a) implies has_ip(s.skip(n + 1), a) || a
        == s[n].ip by {
        let i = choose|i: int| 0 <= i < s.skip(n).len() && #[trigger] s.skip(n)[i].ip == a;
        if i > 0 {
            assert(s.skip(n + 1)[i - 1].ip == a);
        }
    }
    assert forall|a: u32| has_ip(s.skip(n + 1), a) || a == s[n].ip implies #[trigger] has_ip(
        s.skip(n),
        a,
    ) by {
        if has_ip(s.skip(n + 1), a) {
            let i = choose|i: int| 0 <= i < s.skip(n + 1).len() && #[trigger] s.skip(n + 1)[i].ip == a;
            assert(s.skip(n)[i + 1].ip == a);
        } else {
            assert(s.skip(n)[0].ip == a);
        }
    }
}

/// Inserts one probe record into a sorted result list, keeping it sorted by
/// address; a record whose address is already present is dropped.
fn insert_result(results: &mut Vec<ScanResult>, r: ScanResult)
    requires
        sorted_by_ip(old(results)@),
    ensures
        sorted_by_ip(final(results)@),
        old(results)@.len() <= final(results)@.len(),
        forall|a: u32|
            #[trigger] has_ip(final(results)@, a) <==> has_ip(old(results)@, a) || a == r.ip,
        forall|x: ScanResult|
            #[trigger] final(results)@.contains(x) ==> old(results)@.contains(x) || x == r,
        forall|x: ScanResult| #[trigger] old(results)@.contains(x) ==> final(results)@.contains(x),
{
    let n = results.len();
    let mut i: usize = 0;
    while i < n && results[i].ip < r.ip
        invariant
            n == results@.len(),
            0 <= i <= n,
            forall|j: int| 0 <= j < i ==> results@[j].ip < r.ip,
            results@ == old(results)@,
        decreases n - i,
    {
        i = i + 1;
    }
    if i < n && results[i].ip == r.ip {
        proof {
            assert(has_ip(results@, r.ip)) by {
                assert(results@[i as int].ip == r.ip);
            }
        }
        return ;
    }
    proof {
        assert(sorted_by_ip(results@));
        assert(forall|j: int| i <= j < results@.len() ==> r.ip < #[trigger] results@[j].ip) by {
            if i < results@.len() {
                assert(results@[i as int].ip > r.ip);
                assert forall|j: int| i < j < results@.len() implies r.ip < #[trigger] results@[j].ip by {
                    assert(results@[i as int].ip < results@[j].ip);
                }
            }
        }
    }
    let ghost before = results@;
    results.insert(i, r);
    proof {
        let after = results@;
        assert(after == before.insert(i as int, r));
        assert forall|p: int, q: int| 0 <= p < q < after.len() implies after[p].ip < after[q].ip by {
            if q < i {
            } else if p < i && q == i {
            } else if p < i && q > i {
                assert(after[q] == before[q - 1]);
            } else if p == i {
                assert(after[q] == before[q - 1]);
            } else {
                assert(after[p] == before[p - 1]);
                assert(after[q] == before[q - 1]);
            }
        }
        assert forall|a: u32| #[trigger] has_ip(after, a) implies has_ip(before, a) || a == r.ip by {
            let k = choose|k: int| 0 <= k < after.len() && after[k].ip == a;
            if k < i {
                assert(before[k].ip == a);
            } else if k > i {
                assert(before[k - 1].ip == a);
            }
        }
        assert forall|a: u32| has_ip(before, a) || a == r.ip implies #[trigger] has_ip(after, a) by {
            if has_ip(before, a) {
                let k = choose|k: int| 0 <= k < before.len() && before[k].ip == a;
                if k < i {
                    assert(after[k].ip == a);
                } else {
                    assert(after[k + 1].ip == a);
                }
            } else {
                assert(after[i as int].ip == a);
            }
        }
        assert forall|x: ScanResult| #[trigger] after.contains(x) implies before.contains(x) || x
            == r by {
            let k = choose|k: int| 0 <= k < after.len() && after[k] == x;
            if k < i {
                assert(before[k] == x);
            } else if k > i {
                assert(before[k - 1] == x);
            }
        }
        assert forall|x: ScanResult| #[trigger] before.contains(x) implies after.contains(x) by {
            let k = choose|k: int| 0 <= k < before.len() && before[k] == x;
            if k < i {
                assert(after[k] == x);
            } else {
                assert(after[k + 1] == x);
            }
        }
    }
}

} // verus!
