//! Dashboard aggregator: a best-effort snapshot composed of the machine's
//! identity, the most relevant adapter with its traffic rates, the proxy
//! setting, and the result of an out-of-process public-address lookup.
//!
//! The lookup itself (an HTTP request) and the proxy detection (environment
//! and OS queries) are the front end's business; their outcomes are handed
//! in as plain values.

use vstd::prelude::*;

verus! {

use crate::ifaces::{best_interface, spec_score, InterfaceInfo};
use crate::traffic::{snap_fresh, snap_stepped, TrafficSnapshot};

/// What the public-address service reported.
pub struct IpApiResponse {
    /// The public address.
    pub ip: String,
    /// Country of the address.
    pub country: String,
    /// Region of the address.
    pub region: String,
    /// City of the address.
    pub city: String,
    /// The provider operating the address.
    pub isp: String,
}

/// State of the public-address lookup.
pub enum PublicInfoState {
    /// A lookup is in flight.
    Loading,
    /// The service answered.
    Success(IpApiResponse),
    /// The lookup failed: a message key for display, and the raw error text.
    Failed(String, String),
}

/// Milliseconds below which the dashboard keeps its previous rate rather
/// than recompute it.
pub const DASH_DEBOUNCE_MS: u64 = 500;

/// Dashboard state as the renderer sees it.
pub struct Dashboard {
    /// The machine's host name.
    pub hostname: String,
    /// Operating system name.
    pub os_name: String,
    /// Operating system version.
    pub os_version: String,
    /// The most relevant adapter, if any was found.
    pub active_interface: Option<InterfaceInfo>,
    /// Rate tracking for the active adapter.
    pub traffic_stats: Option<TrafficSnapshot>,
    /// State of the public-address lookup.
    pub public_info: PublicInfoState,
    /// The proxy in effect, if one was detected.
    pub proxy_setting: Option<String>,
}

impl Dashboard {
    /// A fresh dashboard: identity as given, a lookup counted as in flight,
    /// no adapter picked yet.
    pub fn new(hostname: String, os_name: String, os_version: String) -> (r: Dashboard)
        ensures
            r.hostname == hostname,
            r.os_name == os_name,
            r.os_version == os_version,
            r.active_interface is None,
            r.traffic_stats is None,
            r.public_info is Loading,
            r.proxy_setting is None,
    {
        Dashboard {
            hostname,
            os_name,
            os_version,
            active_interface: None,
            traffic_stats: None,
            public_info: PublicInfoState::Loading,
            proxy_setting: None,
        }
    }

    /// Records what proxy detection found.
    pub fn set_proxy(&mut self, proxy: Option<String>)
        ensures
            final(self).proxy_setting == proxy,
            *final(self) == (Dashboard { proxy_setting: final(self).proxy_setting, ..*old(self) }),
    {
        self.proxy_setting = proxy;
    }

    /// Marks a new public-address lookup as in flight.
    pub fn begin_fetch(&mut self)
        ensures
            final(self).public_info is Loading,
            *final(self) == (Dashboard { public_info: final(self).public_info, ..*old(self) }),
    {
        self.public_info = PublicInfoState::Loading;
    }

    /// Folds the outcome of the public-address lookup in: an answer shows as
    /// success, a failure as the message key with its error text.
    pub fn apply_fetch(&mut self, outcome: Result<IpApiResponse, (String, String)>)
        ensures
            final(self).public_info == (match outcome {
                Result::Ok(info) => PublicInfoState::Success(info),
                Result::Err((key, detail)) => PublicInfoState::Failed(key, detail),
            }),
            *final(self) == (Dashboard { public_info: final(self).public_info, ..*old(self) }),
    {
        self.public_info = match outcome {
            Result::Ok(info) => PublicInfoState::Success(info),
            Result::Err((key, detail)) => PublicInfoState::Failed(key, detail),
        };
    }

    /// Picks the highest-scoring adapter (the earliest of equals) as the
    /// active one, taking it out of the given list; when the active adapter
    /// changes name, its rate tracking starts over.
    pub fn refresh_active_interface(&mut self, interfaces: Vec<InterfaceInfo>)
        ensures
            final(self).hostname == old(self).hostname,
            final(self).os_name == old(self).os_name,
            final(self).os_version == old(self).os_version,
            final(self).public_info == old(self).public_info,
            final(self).proxy_setting == old(self).proxy_setting,
            interfaces@.len() == 0 ==> final(self).active_interface == old(
                self,
            ).active_interface && final(self).traffic_stats == old(self).traffic_stats,
            interfaces@.len() > 0 ==> {
                &&& final(self).active_interface is Some
                &&& exists|i: int|
                    0 <= i < interfaces@.len() && final(self).active_interface == Some(
                        #[trigger] interfaces@[i],
                    ) && (forall|j: int|
                        0 <= j < interfaces@.len() ==> spec_score(#[trigger] interfaces@[j])
                            <= spec_score(interfaces@[i])) && (forall|j: int|
                        0 <= j < i ==> spec_score(#[trigger] interfaces@[j]) < spec_score(
                            interfaces@[i],
                        ))
                &&& (match (final(self).active_interface, old(self).active_interface) {
                    (Some(new_if), Some(old_if)) => final(self).traffic_stats == (
                    if new_if.name@ == old_if.name@ {
                        old(self).traffic_stats
                    } else {
                        None::<TrafficSnapshot>
                    }),
                    _ => final(self).traffic_stats is None,
                })
            },
    {
        let mut interfaces = interfaces;
        match best_interface(&interfaces) {
            Some(i) => {
                let ghost pre = interfaces@;
                let best = interfaces.remove(i);
                proof {
                    assert(best == pre[i as int]);
                }
                let keep_stats = match &self.active_interface {
                    Some(old_if) => old_if.name == best.name,
                    None => false,
                };
                if !keep_stats {
                    self.traffic_stats = None;
                }
                self.active_interface = Some(best);
            },
            None => {},
        }
    }

    /// Folds one counter reading for the active adapter in: the first
    /// reading starts rate tracking at rate zero, later readings recompute
    /// the rates unless they came sooner than the debounce threshold.
    pub fn update_traffic(&mut self, cur_rx: u64, cur_tx: u64, now_ms: u64)
        ensures
            final(self).traffic_stats == Some(
                match old(self).traffic_stats {
                    Some(snap) => snap_stepped(snap, cur_rx, cur_tx, now_ms, DASH_DEBOUNCE_MS),
                    None => snap_fresh(cur_rx, cur_tx, now_ms),
                },
            ),
            *final(self) == (Dashboard { traffic_stats: final(self).traffic_stats, ..*old(self) }),
    {
        match &mut self.traffic_stats {
            Some(snap) => {
                crate::traffic::step_snapshot(snap, cur_rx, cur_tx, now_ms, DASH_DEBOUNCE_MS);
            },
            None => {
                self.traffic_stats = Some(
                    TrafficSnapshot {
                        total_rx: cur_rx,
                        total_tx: cur_tx,
                        last_update_ms: now_ms,
                        rx_speed: 0,
                        tx_speed: 0,
                    },
                );
            },
        }
    }
}

} // verus!
