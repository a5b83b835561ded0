//! ICMP ping session: lifecycle `Stopped -> Running -> Stopped`, running
//! statistics (min/max/average latency, jitter, loss), a bounded latency
//! history and a bounded log, all driven by the events the probing loop
//! emits.
//!
//! The echo requests themselves are network I/O and live outside this crate;
//! the probing loop hands back one `PingEvent` per iteration and `update`
//! folds the batch in at tick time. `step_model` is the single source of
//! truth for what one event does to the statistics.

use vstd::prelude::*;

verus! {

use crate::ip;
use crate::nav::{next_index, previous_index, spec_next_index, spec_previous_index};
use crate::ring::{Ring, ring_pushed};

/// Capacity of the latency history ring.
pub const HISTORY_CAP: usize = 100;

/// Capacity of the log ring.
pub const LOG_CAP: usize = 20;

/// Number of rows in the configuration panel: target, interval, timeout,
/// payload size.
pub const CONFIG_ROWS: usize = 4;

/// Operator-set probing parameters.
pub struct PingConfig {
    /// Target host: a numeric address or a name to resolve.
    pub target: Vec<char>,
    /// Milliseconds between echo requests, clamped to [100, 10000].
    pub interval_ms: u64,
    /// Milliseconds to wait for a reply, clamped to [100, 10000].
    pub timeout_ms: u64,
    /// Echo payload size in bytes, clamped to [0, 65500].
    pub packet_size: u64,
}

impl PingConfig {
    /// All numeric parameters inside their operator-facing ranges.
    pub open spec fn wf(&self) -> bool {
        &&& 100 <= self.interval_ms <= 10000
        &&& 100 <= self.timeout_ms <= 10000
        &&& self.packet_size <= 65500
    }
}

impl Default for PingConfig {
    /// The out-of-the-box session: probe 8.8.8.8 once a second, two-second
    /// timeout, 32-byte payload.
    fn default() -> (r: PingConfig)
        ensures
            r.wf(),
            ip::spec_parse_ipv4(r.target@) == Some(0x08080808u32),
            r.interval_ms == 1000,
            r.timeout_ms == 2000,
            r.packet_size == 32,
    {
        PingConfig {
            target: ip::format_ipv4(0x08080808),
            interval_ms: 1000,
            timeout_ms: 2000,
            packet_size: 32,
        }
    }
}

/// One outcome of the probing loop, exactly one per iteration.
pub enum PingEvent {
    /// A reply arrived within the timeout.
    Result {
        /// Sequence number of the request.
        seq: u64,
        /// Round-trip time in whole milliseconds.
        latency: u64,
        /// Time-to-live of the reply.
        ttl: u8,
        /// Payload size that was sent.
        size: usize,
    },
    /// No reply arrived within the timeout.
    Timeout {
        /// Sequence number of the request.
        seq: u64,
    },
    /// The session cannot continue (no permission, resolution failure);
    /// the loop terminates after emitting it.
    Error(String),
}

/// One line of the session log, kept structured; rendering it as text is the
/// front end's business.
pub enum PingLogEntry {
    /// A reply: sequence number, payload size, time-to-live, latency.
    Reply {
        /// Sequence number of the request.
        seq: u64,
        /// Payload size that was sent.
        size: usize,
        /// Time-to-live of the reply.
        ttl: u8,
        /// Round-trip time in whole milliseconds.
        latency: u64,
    },
    /// A request that timed out.
    Timeout {
        /// Sequence number of the request.
        seq: u64,
    },
    /// A fatal session error, with its message.
    Failure(String),
}

/// Aggregate statistics of one running phase.
pub struct PingStats {
    /// Requests sent: one past the highest sequence number seen.
    pub sent: u64,
    /// Replies received.
    pub recv: u64,
    /// Fastest reply, set by the first reply.
    pub min_latency: Option<u64>,
    /// Slowest reply, set by the first reply.
    pub max_latency: Option<u64>,
    /// Sum of all reply latencies, for the average.
    pub total_latency: u64,
    /// Sum of absolute successive latency differences.
    pub jitter_sum: u64,
    /// Latency of the most recent reply.
    pub last_latency: Option<u64>,
    /// Latency the next jitter term is measured against.
    pub prev_latency: Option<u64>,
    /// The most recent latencies, oldest first; 0 encodes a timeout.
    pub history: Ring<u64>,
    /// The most recent log lines, oldest first.
    pub logs: Ring<PingLogEntry>,
}

/// Addition that stops at the largest representable value instead of
/// wrapping.
pub open spec fn sat_add(a: u64, b: u64) -> u64 {
    if a + b > u64::MAX {
        u64::MAX
    } else {
        (a + b) as u64
    }
}

/// Distance between two latencies.
pub open spec fn abs_diff(a: u64, b: u64) -> u64 {
    if a >= b {
        (a - b) as u64
    } else {
        (b - a) as u64
    }
}

/// Saturating addition on machine integers.
fn sat_add_u64(a: u64, b: u64) -> (r: u64)
    ensures
        r == sat_add(a, b),
{
    if a > u64::MAX - b {
        u64::MAX
    } else {
        a + b
    }
}

/// The mathematical value of a ping session's mutable state: plain numbers
/// and sequences, as the contracts speak of them.
#[verifier::ext_equal]
pub struct StatsModel {
    /// Requests sent.
    pub sent: u64,
    /// Replies received.
    pub recv: u64,
    /// Fastest reply so far.
    pub min_latency: Option<u64>,
    /// Slowest reply so far.
    pub max_latency: Option<u64>,
    /// Sum of reply latencies.
    pub total_latency: u64,
    /// Sum of absolute successive latency differences.
    pub jitter_sum: u64,
    /// Most recent reply latency.
    pub last_latency: Option<u64>,
    /// Latency the next jitter term is measured against.
    pub prev_latency: Option<u64>,
    /// Latency history, oldest first.
    pub history: Seq<u64>,
    /// Log entries, oldest first.
    pub logs: Seq<PingLogEntry>,
    /// Whether the session is in its running phase.
    pub running: bool,
}

/// The model of a session whose statistics were just reset.
pub open spec fn fresh_model(running: bool) -> StatsModel {
    StatsModel {
        sent: 0,
        recv: 0,
        min_latency: None,
        max_latency: None,
        total_latency: 0,
        jitter_sum: 0,
        last_latency: None,
        prev_latency: None,
        history: Seq::empty(),
        logs: Seq::empty(),
        running: running,
    }
}

/// What one event does to the session: a reply bumps the counters, extremes,
/// totals, jitter, history and log; a timeout bumps the sent counter and
/// pushes the 0 sentinel; a fatal error logs its message and stops the
/// session.
pub open spec fn step_model(m: StatsModel, e: PingEvent) -> StatsModel {
    match e {
        PingEvent::Result { seq, latency, ttl, size } => StatsModel {
            sent: sat_add(seq, 1),
            recv: sat_add(m.recv, 1),
            min_latency: Some(
                match m.min_latency {
                    Some(mn) => if latency < mn {
                        latency
                    } else {
                        mn
                    },
                    None => latency,
                },
            ),
            max_latency: Some(
                match m.max_latency {
                    Some(mx) => if latency > mx {
                        latency
                    } else {
                        mx
                    },
                    None => latency,
                },
            ),
            total_latency: sat_add(m.total_latency, latency),
            jitter_sum: match m.prev_latency {
                Some(p) => sat_add(m.jitter_sum, abs_diff(latency, p)),
                None => m.jitter_sum,
            },
            last_latency: Some(latency),
            prev_latency: Some(latency),
            history: ring_pushed(m.history, HISTORY_CAP as nat, latency),
            logs: ring_pushed(
                m.logs,
                LOG_CAP as nat,
                PingLogEntry::Reply { seq, size, ttl, latency },
            ),
            running: m.running,
        },
        PingEvent::Timeout { seq } => StatsModel {
            sent: sat_add(seq, 1),
            history: ring_pushed(m.history, HISTORY_CAP as nat, 0u64),
            logs: ring_pushed(m.logs, LOG_CAP as nat, PingLogEntry::Timeout { seq }),
            ..m
        },
        PingEvent::Error(msg) => StatsModel {
            logs: ring_pushed(m.logs, LOG_CAP as nat, PingLogEntry::Failure(msg)),
            running: false,
            ..m
        },
    }
}

/// What a whole batch of events does, applied in arrival order.
pub open spec fn run_model(m: StatsModel, es: Seq<PingEvent>) -> StatsModel
    decreases es.len(),
{
    if es.len() == 0 {
        m
    } else {
        step_model(run_model(m, es.drop_last()), es.last())
    }
}

/// Ping session state as the renderer sees it.
pub struct PingTool {
    /// Operator-set probing parameters.
    pub config: PingConfig,
    /// Aggregate statistics of the current running phase.
    pub stats: PingStats,
    /// Whether the session is in its running phase.
    pub running: bool,
    /// Cooperative cancellation flag the probing loop polls.
    pub cancel: bool,
    /// Cursor over the configuration rows.
    pub config_selected: Option<usize>,
}

impl PingTool {
    /// Parameters in range, rings at their fixed capacities, cursor inside
    /// the configuration panel.
    pub open spec fn wf(&self) -> bool {
        &&& self.config.wf()
        &&& self.stats.history.wf()
        &&& self.stats.history.cap == HISTORY_CAP
        &&& self.stats.logs.wf()
        &&& self.stats.logs.cap == LOG_CAP
        &&& match self.config_selected {
            Some(i) => i < CONFIG_ROWS,
            None => true,
        }
    }

    /// The session's mutable state as plain mathematics.
    pub open spec fn stats_model(&self) -> StatsModel {
        StatsModel {
            sent: self.stats.sent,
            recv: self.stats.recv,
            min_latency: self.stats.min_latency,
            max_latency: self.stats.max_latency,
            total_latency: self.stats.total_latency,
            jitter_sum: self.stats.jitter_sum,
            last_latency: self.stats.last_latency,
            prev_latency: self.stats.prev_latency,
            history: self.stats.history.items@,
            logs: self.stats.logs.items@,
            running: self.running,
        }
    }

    /// A stopped session with default parameters and zeroed statistics.
    pub fn new() -> (r: PingTool)
        ensures
            r.wf(),
            r.stats_model() == fresh_model(false),
            !r.cancel,
            r.config.wf(),
            ip::spec_parse_ipv4(r.config.target@) == Some(0x08080808u32),
            r.config.interval_ms == 1000,
            r.config.timeout_ms == 2000,
            r.config.packet_size == 32,
            r.config_selected == Some(0usize),
    {
        let r = PingTool {
            config: Default::default(),
            stats: PingStats {
                sent: 0,
                recv: 0,
                min_latency: None,
                max_latency: None,
                total_latency: 0,
                jitter_sum: 0,
                last_latency: None,
                prev_latency: None,
                history: Ring::new(HISTORY_CAP),
                logs: Ring::new(LOG_CAP),
            },
            running: false,
            cancel: false,
            config_selected: Some(0),
        };
        proof {
            assert(r.stats_model() =~= fresh_model(false));
        }
        r
    }

    /// Begins a running phase: a no-op while already running, otherwise the
    /// statistics reset to zero, the cancellation flag clears, and the
    /// session runs. Returns whether a new phase began; the caller then
    /// spawns the probing loop.
    pub fn start(&mut self) -> (started: bool)
        requires
            old(self).wf(),
        ensures
            final(self).wf(),
            started == !old(self).running,
            final(self).config == old(self).config,
            final(self).config_selected == old(self).config_selected,
            old(self).running ==> *final(self) == *old(self),
            !old(self).running ==> final(self).stats_model() == fresh_model(true),
            !old(self).running ==> !final(self).cancel,
    {
        if self.running {
            return false;
        }
        self.running = true;
        self.cancel = false;
        self.stats = PingStats {
            sent: 0,
            recv: 0,
            min_latency: None,
            max_latency: None,
            total_latency: 0,
            jitter_sum: 0,
            last_latency: None,
            prev_latency: None,
            history: Ring::new(HISTORY_CAP),
            logs: Ring::new(LOG_CAP),
        };
        proof {
            assert(self.stats_model() =~= fresh_model(true));
        }
        true
    }

    /// Ends the running phase and raises the cancellation flag; statistics
    /// and parameters are untouched.
    pub fn stop(&mut self)
        requires
            old(self).wf(),
        ensures
            final(self).wf(),
            !final(self).running,
            final(self).cancel,
            final(self).stats == old(self).stats,
            final(self).config == old(self).config,
            final(self).config_selected == old(self).config_selected,
    {
        self.running = false;
        self.cancel = true;
    }

    /// Folds one probing event into the statistics, as `step_model` says;
    /// a fatal error also stops the session.
    pub fn apply_event(&mut self, e: &PingEvent)
        requires
            old(self).wf(),
        ensures
            final(self).wf(),
            final(self).config == old(self).config,
            final(self).config_selected == old(self).config_selected,
            final(self).stats_model() == step_model(old(self).stats_model(), *e),
            final(self).cancel == (old(self).cancel || *e is Error),
    {
        match e {
            PingEvent::Result { seq, latency, ttl, size } => {
                self.stats.recv = sat_add_u64(self.stats.recv, 1);
                self.stats.sent = sat_add_u64(*seq, 1);
                self.stats.min_latency = Some(
                    match self.stats.min_latency {
                        Some(mn) => if *latency < mn {
                            *latency
                        } else {
                            mn
                        },
                        None => *latency,
                    },
                );
                self.stats.max_latency = Some(
                    match self.stats.max_latency {
                        Some(mx) => if *latency > mx {
                            *latency
                        } else {
                            mx
                        },
                        None => *latency,
                    },
                );
                self.stats.total_latency = sat_add_u64(self.stats.total_latency, *latency);
                match self.stats.prev_latency {
                    Some(p) => {
                        let diff = if *latency > p {
                            *latency - p
                        } else {
                            p - *latency
                        };
                        self.stats.jitter_sum = sat_add_u64(self.stats.jitter_sum, diff);
                    },
                    None => {},
                }
                self.stats.prev_latency = Some(*latency);
                self.stats.last_latency = Some(*latency);
                self.stats.history.push(*latency);
                self.stats.logs.push(
                    PingLogEntry::Reply { seq: *seq, size: *size, ttl: *ttl, latency: *latency },
                );
                proof {
                    assert(self.stats_model() =~= step_model(old(self).stats_model(), *e));
                }
            },
            PingEvent::Timeout { seq } => {
                self.stats.sent = sat_add_u64(*seq, 1);
                self.stats.history.push(0);
                self.stats.logs.push(PingLogEntry::Timeout { seq: *seq });
                proof {
                    assert(self.stats_model() =~= step_model(old(self).stats_model(), *e));
                }
            },
            PingEvent::Error(msg) => {
                self.stats.logs.push(PingLogEntry::Failure(msg.clone()));
                self.running = false;
                self.cancel = true;
                proof {
                    assert(self.stats_model() =~= step_model(old(self).stats_model(), *e));
                }
            },
        }
    }

    /// Tick-driven drain: folds a batch of probing events in, in arrival
    /// order.
    pub fn update(&mut self, events: &Vec<PingEvent>)
        requires
            old(self).wf(),
        ensures
            final(self).wf(),
            final(self).config == old(self).config,
            final(self).config_selected == old(self).config_selected,
            final(self).stats_model() == run_model(old(self).stats_model(), events@),
            final(self).cancel == (old(self).cancel || (exists|i: int|
                0 <= i < events@.len() && #[trigger] events@[i] is Error)),
    {
        let n = events.len();
        let mut i: usize = 0;
        while i < n
            invariant
                old(self).wf(),
                self.wf(),
                n == events@.len(),
                0 <= i <= n,
                self.config == old(self).config,
                self.config_selected == old(self).config_selected,
                self.stats_model() == run_model(old(self).stats_model(), events@.take(i as int)),
                self.cancel == (old(self).cancel || (exists|j: int|
                    0 <= j < i && #[trigger] events@[j] is Error)),
            decreases n - i,
        {
            self.apply_event(&events[i]);
            proof {
                assert(events@.take(i + 1).drop_last() =~= events@.take(i as int));
                assert(events@.take(i + 1).last() == events@[i as int]);
                if events@[i as int] is Error {
                    assert(exists|j: int| 0 <= j < i + 1 && #[trigger] events@[j] is Error);
                }
            }
            i = i + 1;
        }
        proof {
            assert(events@.take(n as int) =~= events@);
        }
    }

    /// Average reply latency in whole milliseconds; 0 before the first
    /// reply.
    pub fn avg_latency(&self) -> (r: u64)
        ensures
            r == (if self.stats.recv > 0 {
                self.stats.total_latency / self.stats.recv
            } else {
                0u64
            }),
    {
        if self.stats.recv > 0 {
            self.stats.total_latency / self.stats.recv
        } else {
            0
        }
    }

    /// Packet loss in tenths of a percent: `(sent - recv) * 1000 / sent`,
    /// and 0 before the first request or when every request was answered.
    pub fn loss_tenths(&self) -> (r: u64)
        ensures
            r == (if self.stats.sent > 0 && self.stats.recv < self.stats.sent {
                ((self.stats.sent - self.stats.recv) * 1000 / (self.stats.sent as int)) as u64
            } else {
                0u64
            }),
    {
        if self.stats.sent > 0 && self.stats.recv < self.stats.sent {
            let diff = self.stats.sent - self.stats.recv;
            let scaled: u128 = (diff as u128) * 1000 / (self.stats.sent as u128);
            proof {
                assert((self.stats.sent - self.stats.recv) * 1000 / (self.stats.sent as int)
                    <= 1000) by (nonlinear_arith)
                    requires
                        self.stats.sent > 0,
                        self.stats.recv < self.stats.sent,
                ;
            }
            scaled as u64
        } else {
            0
        }
    }

    /// Mean absolute successive latency difference in whole milliseconds;
    /// 0 until a second reply arrives.
    pub fn jitter_avg(&self) -> (r: u64)
        ensures
            r == (if self.stats.recv > 1 {
                (self.stats.jitter_sum / ((self.stats.recv - 1) as u64)) as u64
            } else {
                0u64
            }),
    {
        if self.stats.recv > 1 {
            self.stats.jitter_sum / (self.stats.recv - 1)
        } else {
            0
        }
    }

    /// Moves the configuration cursor down one row, wrapping.
    pub fn next_config(&mut self)
        requires
            old(self).wf(),
        ensures
            final(self).wf(),
            final(self).config_selected == spec_next_index(
                old(self).config_selected,
                CONFIG_ROWS as nat,
            ),
            *final(self) == (PingTool { config_selected: final(self).config_selected, ..*old(self) }),
    {
        self.config_selected = next_index(self.config_selected, CONFIG_ROWS);
    }

    /// Moves the configuration cursor up one row, wrapping.
    pub fn prev_config(&mut self)
        requires
            old(self).wf(),
        ensures
            final(self).wf(),
            final(self).config_selected == spec_previous_index(
                old(self).config_selected,
                CONFIG_ROWS as nat,
            ),
            *final(self) == (PingTool { config_selected: final(self).config_selected, ..*old(self) }),
    {
        self.config_selected = previous_index(self.config_selected, CONFIG_ROWS);
    }

    /// Appends one ASCII character to the target text, when the target row
    /// is selected and no session is running.
    pub fn edit_config_value(&mut self, c: char)
        requires
            old(self).wf(),
        ensures
            final(self).wf(),
            final(self).config.target@ == (if !old(self).running && old(self).config_selected
                == Some(0usize) && (c as u32) < 128 {
                old(self).config.target@.push(c)
            } else {
                old(self).config.target@
            }),
            final(self).config.interval_ms == old(self).config.interval_ms,
            final(self).config.timeout_ms == old(self).config.timeout_ms,
            final(self).config.packet_size == old(self).config.packet_size,
            final(self).stats == old(self).stats,
            final(self).running == old(self).running,
            final(self).cancel == old(self).cancel,
            final(self).config_selected == old(self).config_selected,
    {
        if self.running {
            return ;
        }
        let on_target = match self.config_selected {
            Some(i) => i == 0,
            None => false,
        };
        if on_target && (c as u32) < 128 {
            self.config.target.push(c);
        }
    }

    /// Removes the last character of the target text, when the target row is
    /// selected and no session is running.
    pub fn backspace_target(&mut self)
        requires
            old(self).wf(),
        ensures
            final(self).wf(),
            final(self).config.target@ == (if !old(self).running && old(self).config_selected
                == Some(0usize) && old(self).config.target@.len() > 0 {
                old(self).config.target@.drop_last()
            } else {
                old(self).config.target@
            }),
            final(self).config.interval_ms == old(self).config.interval_ms,
            final(self).config.timeout_ms == old(self).config.timeout_ms,
            final(self).config.packet_size == old(self).config.packet_size,
            final(self).stats == old(self).stats,
            final(self).running == old(self).running,
            final(self).cancel == old(self).cancel,
            final(self).config_selected == old(self).config_selected,
    {
        if self.running {
            return ;
        }
        let on_target = match self.config_selected {
            Some(i) => i == 0,
            None => false,
        };
        if on_target && self.config.target.len() > 0 {
            let _ = self.config.target.pop();
            proof {
                assert(self.config.target@ =~= old(self).config.target@.drop_last());
            }
        }
    }

    /// Replaces the target text, when no session is running.
    pub fn set_target(&mut self, target: Vec<char>)
        requires
            old(self).wf(),
        ensures
            final(self).wf(),
            final(self).config.target@ == (if old(self).running {
                old(self).config.target@
            } else {
                target@
            }),
            final(self).config.interval_ms == old(self).config.interval_ms,
            final(self).config.timeout_ms == old(self).config.timeout_ms,
            final(self).config.packet_size == old(self).config.packet_size,
            final(self).stats == old(self).stats,
            final(self).running == old(self).running,
            final(self).cancel == old(self).cancel,
            final(self).config_selected == old(self).config_selected,
    {
        if !self.running {
            self.config.target = target;
        }
    }

    /// Sets the probing interval, clamped to [100, 10000] milliseconds; a
    /// no-op while running.
    pub fn set_interval_ms(&mut self, v: u64)
        requires
            old(self).wf(),
        ensures
            final(self).wf(),
            final(self).config.interval_ms == (if old(self).running {
                old(self).config.interval_ms
            } else {
                clamp_u64(v, 100, 10000)
            }),
            final(self).config.target == old(self).config.target,
            final(self).config.timeout_ms == old(self).config.timeout_ms,
            final(self).config.packet_size == old(self).config.packet_size,
            final(self).stats == old(self).stats,
            final(self).running == old(self).running,
            final(self).cancel == old(self).cancel,
            final(self).config_selected == old(self).config_selected,
    {
        if !self.running {
            self.config.interval_ms = clamp_value(v, 100, 10000);
        }
    }

    /// Sets the reply timeout, clamped to [100, 10000] milliseconds; a no-op
    /// while running.
    pub fn set_timeout_ms(&mut self, v: u64)
        requires
            old(self).wf(),
        ensures
            final(self).wf(),
            final(self).config.timeout_ms == (if old(self).running {
                old(self).config.timeout_ms
            } else {
                clamp_u64(v, 100, 10000)
            }),
            final(self).config.target == old(self).config.target,
            final(self).config.interval_ms == old(self).config.interval_ms,
            final(self).config.packet_size == old(self).config.packet_size,
            final(self).stats == old(self).stats,
            final(self).running == old(self).running,
            final(self).cancel == old(self).cancel,
            final(self).config_selected == old(self).config_selected,
    {
        if !self.running {
            self.config.timeout_ms = clamp_value(v, 100, 10000);
        }
    }

    /// Sets the payload size, clamped to [0, 65500] bytes; a no-op while
    /// running.
    pub fn set_packet_size(&mut self, v: u64)
        requires
            old(self).wf(),
        ensures
            final(self).wf(),
            final(self).config.packet_size == (if old(self).running {
                old(self).config.packet_size
            } else {
                clamp_u64(v, 0, 65500)
            }),
            final(self).config.target == old(self).config.target,
            final(self).config.interval_ms == old(self).config.interval_ms,
            final(self).config.timeout_ms == old(self).config.timeout_ms,
            final(self).stats == old(self).stats,
            final(self).running == old(self).running,
            final(self).cancel == old(self).cancel,
            final(self).config_selected == old(self).config_selected,
    {
        if !self.running {
            self.config.packet_size = clamp_value(v, 0, 65500);
        }
    }

    /// Nudges the numeric parameter under the cursor: the interval and the
    /// timeout by 100 ms, the payload size by 8 bytes, each clamped to its
    /// range; a no-op while running or on the target row.
    pub fn adjust_numeric_config(&mut self, up: bool)
        requires
            old(self).wf(),
        ensures
            final(self).wf(),
            final(self).config.target == old(self).config.target,
            final(self).stats == old(self).stats,
            final(self).running == old(self).running,
            final(self).cancel == old(self).cancel,
            final(self).config_selected == old(self).config_selected,
            final(self).config.interval_ms == (if !old(self).running && old(
                self,
            ).config_selected == Some(1usize) {
                clamp_u64(stepped(old(self).config.interval_ms, 100, up), 100, 10000)
            } else {
                old(self).config.interval_ms
            }),
            final(self).config.timeout_ms == (if !old(self).running && old(self).config_selected
                == Some(2usize) {
                clamp_u64(stepped(old(self).config.timeout_ms, 100, up), 100, 10000)
            } else {
                old(self).config.timeout_ms
            }),
            final(self).config.packet_size == (if !old(self).running && old(self).config_selected
                == Some(3usize) {
                clamp_u64(stepped(old(self).config.packet_size, 8, up), 0, 65500)
            } else {
                old(self).config.packet_size
            }),
    {
        if self.running {
            return ;
        }
        match self.config_selected {
            Some(1) => {
                self.config.interval_ms = clamp_value(
                    step_value(self.config.interval_ms, 100, up),
                    100,
                    10000,
                );
            },
            Some(2) => {
                self.config.timeout_ms = clamp_value(
                    step_value(self.config.timeout_ms, 100, up),
                    100,
                    10000,
                );
            },
            Some(3) => {
                self.config.packet_size = clamp_value(
                    step_value(self.config.packet_size, 8, up),
                    0,
                    65500,
                );
            },
            _ => {},
        }
    }
}

/// `v` forced into `[lo, hi]`.
pub open spec fn clamp_u64(v: u64, lo: u64, hi: u64) -> u64 {
    if v < lo {
        lo
    } else if v > hi {
        hi
    } else {
        v
    }
}

/// `v` moved one step up or down, saturating at the ends of the `u64`
/// range.
pub open spec fn stepped(v: u64, step: u64, up: bool) -> u64 {
    if up {
        sat_add(v, step)
    } else if v >= step {
        (v - step) as u64
    } else {
        0u64
    }
}

/// Forces `v` into `[lo, hi]`.
fn clamp_value(v: u64, lo: u64, hi: u64) -> (r: u64)
    requires
        lo <= hi,
    ensures
        r == clamp_u64(v, lo, hi),
{
    if v < lo {
        lo
    } else if v > hi {
        hi
    } else {
        v
    }
}

/// Moves `v` one step up or down, saturating.
fn step_value(v: u64, step: u64, up: bool) -> (r: u64)
    ensures
        r == stepped(v, step, up),
{
    if up {
        sat_add_u64(v, step)
    } else if v >= step {
        v - step
    } else {
        0
    }
}

/// Classifies one iteration of the probing loop: a reply within the timeout
/// becomes a `Result` event, silence becomes a `Timeout` event.
pub fn echo_event(seq: u64, reply_ms: Option<u64>, ttl: u8, size: usize) -> (e: PingEvent)
    ensures
        e == (match reply_ms {
            Some(ms) => PingEvent::Result { seq, latency: ms, ttl, size },
            None => PingEvent::Timeout { seq },
        }),
{
    match reply_ms {
        Some(ms) => PingEvent::Result { seq, latency: ms, ttl, size },
        None => PingEvent::Timeout { seq },
    }
}

} // verus!
