//! One monitored Pi-hole server: its configuration (with or without an API
//! key), the latest snapshot of its metrics, and the refresh coordinator
//! that guarantees at most one background fetch is outstanding at a time.
//!
//! The coordinator is a pure state machine. The caller owns the clock, the
//! background task and its completion channel: it passes the current time in
//! milliseconds to each transition, spawns a fetch exactly when
//! `run_background_update` says so, and hands whatever its channel yielded to
//! `check_background_update`.

use vstd::prelude::*;

verus! {

/// The overview statistics of one server, as the provider reports them:
/// pre-formatted text, shown verbatim.
pub struct Summary {
    pub domains_being_blocked: String,
    pub dns_queries_today: String,
    pub ads_blocked_today: String,
    pub ads_percentage_today: String,
    pub unique_domains: String,
    pub queries_forwarded: String,
    pub queries_cached: String,
    pub unique_clients: String,
    pub reply_nodata: String,
    pub reply_nxdomain: String,
    pub reply_cname: String,
    pub reply_ip: String,
    pub privacy_level: String,
    pub status: String,
}

/// Top queried and top blocked domains: unordered label/count tables.
pub struct TopItems {
    pub top_queries: Vec<(String, u64)>,
    pub top_ads: Vec<(String, u64)>,
}

/// Top clients: an unordered label/count table.
pub struct TopClients {
    pub top_sources: Vec<(String, u64)>,
}

/// Query counts over time: (epoch seconds, count) samples.
pub struct OverTimeData {
    pub domains_over_time: Vec<(i64, u64)>,
}

/// One fetched snapshot. Each field is independently optional: each
/// underlying request can fail on its own, and a failed one leaves its field
/// absent without invalidating the rest.
pub struct PiHoleData {
    pub summary: Option<Summary>,
    pub top_sources: Option<TopClients>,
    pub top_items: Option<TopItems>,
    pub over_time_data: Option<OverTimeData>,
}

impl PiHoleData {
    /// The snapshot shown before any fetch has completed: every field absent.
    pub open spec fn spec_empty() -> PiHoleData {
        PiHoleData { summary: None, top_sources: None, top_items: None, over_time_data: None }
    }

    pub fn empty() -> (d: PiHoleData)
        ensures
            d == PiHoleData::spec_empty(),
    {
        PiHoleData { summary: None, top_sources: None, top_items: None, over_time_data: None }
    }
}

/// Connection data for the read-only API.
pub struct PiHoleConfig {
    pub host: String,
}

/// Connection data for the full API: mutating calls need the key.
pub struct PiHoleConfigWithKey {
    pub host: String,
    pub api_key: String,
}

/// What a server's credentials allow: every server answers the read-only
/// queries, only one configured with an API key accepts mutations.
pub enum PiHoleConfigImplementation {
    Default(PiHoleConfig),
    WithKey(PiHoleConfigWithKey),
}

impl PiHoleConfigImplementation {
    /// The configuration a host and an optional key determine.
    pub open spec fn spec_new(host: String, api_key: Option<String>) -> PiHoleConfigImplementation {
        match api_key {
            Some(key) => PiHoleConfigImplementation::WithKey(
                PiHoleConfigWithKey { host, api_key: key },
            ),
            None => PiHoleConfigImplementation::Default(PiHoleConfig { host }),
        }
    }

    pub fn new(host: String, api_key: Option<String>) -> (c: Self)
        ensures
            c == PiHoleConfigImplementation::spec_new(host, api_key),
    {
        match api_key {
            Some(key) => PiHoleConfigImplementation::WithKey(
                PiHoleConfigWithKey { host, api_key: key },
            ),
            None => PiHoleConfigImplementation::Default(PiHoleConfig { host }),
        }
    }

    pub open spec fn spec_host(&self) -> String {
        match *self {
            PiHoleConfigImplementation::Default(cfg) => cfg.host,
            PiHoleConfigImplementation::WithKey(cfg) => cfg.host,
        }
    }

    /// Every configuration can serve the read-only queries; the host they go
    /// to is always available.
    pub fn get_unauthenticated_api(&self) -> (r: Option<&String>)
        ensures
            (r matches Some(h) && *h == self.spec_host()),
    {
        Some(
            match self {
                PiHoleConfigImplementation::Default(cfg) => &cfg.host,
                PiHoleConfigImplementation::WithKey(cfg) => &cfg.host,
            },
        )
    }

    /// Only a configuration that carries an API key can serve the mutating
    /// calls; without one there is nothing to hand out.
    pub fn get_authenticated_api(&self) -> (r: Option<&PiHoleConfigWithKey>)
        ensures
            r is Some <==> *self is WithKey,
            (*self matches PiHoleConfigImplementation::WithKey(cfg) ==> (r matches Some(c) && *c
                == cfg)),
    {
        match self {
            PiHoleConfigImplementation::Default(_) => None,
            PiHoleConfigImplementation::WithKey(cfg) => Some(cfg),
        }
    }
}

/// The refresh lifecycle of one server: idle, or exactly one background
/// fetch outstanding.
pub enum RefreshState {
    Idle,
    InFlight { started_at: u64 },
}

/// One monitored server together with its refresh coordinator and the most
/// recent snapshot. `last_update` is the time (milliseconds) the snapshot
/// was last replaced.
pub struct PiHoleServer {
    pub name: String,
    pub host: String,
    pub api_key: Option<String>,
    pub api_config: PiHoleConfigImplementation,
    pub last_update: u64,
    pub last_data: PiHoleData,
    pub refresh_state: RefreshState,
}

impl PiHoleServer {
    /// A freshly loaded server: no data yet, and a refresh clock set back by
    /// one interval so the first tick starts a fetch as soon as it is due.
    pub open spec fn spec_new(
        name: String,
        host: String,
        api_key: Option<String>,
        update_delay: u64,
        now_ms: u64,
    ) -> PiHoleServer
        recommends
            update_delay <= now_ms,
    {
        PiHoleServer {
            name,
            host,
            api_key,
            api_config: PiHoleConfigImplementation::spec_new(host, api_key),
            last_update: (now_ms - update_delay) as u64,
            last_data: PiHoleData::spec_empty(),
            refresh_state: RefreshState::Idle,
        }
    }

    /// Requesting a refresh: a fetch is to be spawned only from the idle
    /// state; a request while one is outstanding is coalesced into it and
    /// changes nothing.
    pub open spec fn spec_run_background_update(self, now_ms: u64) -> (PiHoleServer, bool) {
        if self.refresh_state is Idle {
            (
                (PiHoleServer {
                    refresh_state: RefreshState::InFlight { started_at: now_ms },
                    ..self
                }),
                true,
            )
        } else {
            (self, false)
        }
    }

    /// Polling completion: only a result delivered while a fetch is
    /// outstanding changes anything. The delivered snapshot replaces the
    /// stored one wholesale (absent fields and all), and the refresh clock
    /// restarts; a delivery without a snapshot only restarts the clock.
    pub open spec fn spec_check_background_update(
        self,
        now_ms: u64,
        delivery: Option<Option<PiHoleData>>,
    ) -> (PiHoleServer, bool) {
        if self.refresh_state is InFlight && delivery is Some {
            let data = match delivery {
                Some(Some(d)) => d,
                _ => self.last_data,
            };
            (
                (PiHoleServer {
                    last_update: now_ms,
                    last_data: data,
                    refresh_state: RefreshState::Idle,
                    ..self
                }),
                true,
            )
        } else {
            (self, false)
        }
    }

    /// Stale when more than `interval_ms` has passed since the last update.
    pub open spec fn spec_is_stale(self, now_ms: u64, interval_ms: u64) -> bool {
        now_ms > self.last_update + interval_ms
    }

    pub fn new(
        name: String,
        host: String,
        api_key: Option<String>,
        update_delay: u64,
        now_ms: u64,
    ) -> (s: Self)
        requires
            update_delay <= now_ms,
        ensures
            s == PiHoleServer::spec_new(name, host, api_key, update_delay, now_ms),
    {
        let key_copy = match &api_key {
            Some(k) => Some(k.clone()),
            None => None,
        };
        let api_config = PiHoleConfigImplementation::new(host.clone(), key_copy);
        PiHoleServer {
            name,
            host,
            api_key,
            api_config,
            last_update: now_ms - update_delay,
            last_data: PiHoleData::empty(),
            refresh_state: RefreshState::Idle,
        }
    }

    /// Start a background fetch unless one is already outstanding. Returns
    /// whether the caller must spawn one now; a request while a fetch is in
    /// flight is silently coalesced.
    pub fn run_background_update(&mut self, now_ms: u64) -> (spawn: bool)
        ensures
            (*final(self), spawn) == old(self).spec_run_background_update(now_ms),
    {
        match self.refresh_state {
            RefreshState::Idle => {
                self.refresh_state = RefreshState::InFlight { started_at: now_ms };
                true
            },
            RefreshState::InFlight { .. } => false,
        }
    }

    /// Consume what the completion channel yielded this tick: `None` when
    /// nothing was ready, `Some(result)` when the background task finished.
    /// Returns whether the fetch cycle completed this call. Never waits: the
    /// bounded poll of the channel itself is the caller's.
    pub fn check_background_update(&mut self, now_ms: u64, delivery: Option<Option<PiHoleData>>)
        -> (updated: bool)
        ensures
            (*final(self), updated) == old(self).spec_check_background_update(now_ms, delivery),
    {
        let in_flight = match self.refresh_state {
            RefreshState::InFlight { .. } => true,
            RefreshState::Idle => false,
        };
        if in_flight {
            match delivery {
                Some(result) => {
                    match result {
                        Some(data) => {
                            self.last_data = data;
                        },
                        None => {},
                    }
                    self.last_update = now_ms;
                    self.refresh_state = RefreshState::Idle;
                    true
                },
                None => false,
            }
        } else {
            false
        }
    }

    /// Whether the snapshot is older than the refresh interval.
    pub fn is_stale(&self, now_ms: u64, interval_ms: u64) -> (r: bool)
        ensures
            r == self.spec_is_stale(now_ms, interval_ms),
    {
        now_ms > self.last_update && now_ms - self.last_update > interval_ms
    }

    /// The last completed snapshot; every field is absent until a first
    /// fetch completes.
    pub fn snapshot(&self) -> (d: &PiHoleData)
        ensures
            *d == self.last_data,
    {
        &self.last_data
    }
}

/// Law: two refresh requests with no completion between them spawn exactly
/// one background fetch. The first spawns one exactly when the coordinator
/// was idle; after it the coordinator is in flight, so the second request
/// spawns nothing and changes nothing.
pub proof fn lemma_single_flight(s: PiHoleServer, now1: u64, now2: u64)
    ensures
        ({
            let (s1, spawned1) = s.spec_run_background_update(now1);
            let (s2, spawned2) = s1.spec_run_background_update(now2);
            &&& (s.refresh_state is Idle ==> spawned1)
            &&& s1.refresh_state is InFlight
            &&& !spawned2
            &&& s2 == s1
        }),
{
}

} // verus!
