//! The application state the render loop drives: the list of monitored
//! servers, which one is selected, the refresh cadence, and the chart zoom
//! factor. Every user command and the periodic tick go through one of the
//! methods here; the caller performs whatever outside work a method asks for
//! (spawning a fetch, a provider mutation) after the call returns.

use vstd::prelude::*;
use crate::server::{PiHoleData, PiHoleServer};

verus! {

/// A mutating provider call a command asks the caller to perform.
pub enum ProviderMutation {
    /// Enable blocking.
    Enable,
    /// Disable blocking for the given number of seconds.
    Disable { duration_seconds: u64 },
}

/// How long a disable command switches blocking off.
pub const DISABLE_SECONDS: u64 = 60;

/// One server entry of the loaded configuration.
pub struct PiHoleServerConfig {
    pub name: String,
    pub host: String,
    pub api_key: Option<String>,
}

/// The loaded configuration: the servers to monitor and the refresh
/// interval in milliseconds.
pub struct PimonConfig {
    pub servers: Vec<PiHoleServerConfig>,
    pub update_delay: u64,
}

pub struct App {
    pub selected_server_index: usize,
    pub servers: Vec<PiHoleServer>,
    pub update_delay: u64,
    pub graph_squash_factor: usize,
}

/// Zooming the chart in halves the squash factor, with a floor at one.
pub open spec fn spec_zoom_in(factor: usize) -> usize {
    if factor > 1 {
        (factor / 2) as usize
    } else {
        factor
    }
}

/// Zooming the chart out doubles the squash factor, except where doubling
/// would no longer be representable.
pub open spec fn spec_zoom_out(factor: usize) -> usize {
    if factor <= usize::MAX / 2 {
        (factor * 2) as usize
    } else {
        factor
    }
}

/// Law: zooming in keeps the factor at one or above, and at one it stays
/// exactly one; repeated zooming in therefore never leaves one.
pub proof fn lemma_zoom_in_floor(factor: usize)
    requires
        factor >= 1,
    ensures
        spec_zoom_in(factor) >= 1,
        factor == 1 ==> spec_zoom_in(factor) == 1,
{
}

/// Law: zooming out never yields a smaller factor; repeated zooming out
/// therefore never overflows or wraps around.
pub proof fn lemma_zoom_out_monotone(factor: usize)
    ensures
        spec_zoom_out(factor) >= factor,
{
}

impl App {
    /// At least one server, a valid selection, and a zoom factor of at least
    /// one; established at construction and preserved by every command.
    pub open spec fn well_formed(self) -> bool {
        &&& self.servers@.len() > 0
        &&& self.selected_server_index < self.servers@.len()
        &&& self.graph_squash_factor >= 1
    }

    pub open spec fn spec_selected(self) -> PiHoleServer {
        self.servers@[self.selected_server_index as int]
    }

    /// Build the application state from loaded configuration: one server per
    /// entry, the first selected, no zoom.
    pub fn from_config(config: PimonConfig, now_ms: u64) -> (app: App)
        requires
            config.servers@.len() > 0,
            config.update_delay <= now_ms,
        ensures
            app.well_formed(),
            app.selected_server_index == 0,
            app.update_delay == config.update_delay,
            app.graph_squash_factor == 1,
            app.servers@.len() == config.servers@.len(),
            forall|i: int|
                0 <= i < config.servers@.len() ==> app.servers@[i] == PiHoleServer::spec_new(
                    (#[trigger] config.servers@[i]).name,
                    config.servers@[i].host,
                    config.servers@[i].api_key,
                    config.update_delay,
                    now_ms,
                ),
    {
        let mut servers: Vec<PiHoleServer> = Vec::new();
        let mut i: usize = 0;
        while i < config.servers.len()
            invariant
                i <= config.servers@.len(),
                servers@.len() == i,
                config.update_delay <= now_ms,
                forall|j: int|
                    0 <= j < i ==> servers@[j] == PiHoleServer::spec_new(
                        (#[trigger] config.servers@[j]).name,
                        config.servers@[j].host,
                        config.servers@[j].api_key,
                        config.update_delay,
                        now_ms,
                    ),
            decreases config.servers@.len() - i,
        {
            let entry = &config.servers[i];
            let key_copy = match &entry.api_key {
                Some(k) => Some(k.clone()),
                None => None,
            };
            let server = PiHoleServer::new(
                entry.name.clone(),
                entry.host.clone(),
                key_copy,
                config.update_delay,
                now_ms,
            );
            servers.push(server);
            i = i + 1;
        }
        App {
            selected_server_index: 0,
            servers,
            update_delay: config.update_delay,
            graph_squash_factor: 1,
        }
    }

    /// Select the next server, wrapping from the last around to the first.
    pub fn next_server(&mut self)
        requires
            old(self).well_formed(),
        ensures
            final(self).well_formed(),
            final(self).selected_server_index == (old(self).selected_server_index + 1) % (
            old(self).servers@.len() as int),
            final(self).servers == old(self).servers,
            final(self).update_delay == old(self).update_delay,
            final(self).graph_squash_factor == old(self).graph_squash_factor,
    {
        let len = self.servers.len();
        proof {
            assert(self.selected_server_index < len);
        }
        self.selected_server_index = (self.selected_server_index + 1) % len;
    }

    /// Select the previous server, wrapping from the first around to the
    /// last.
    pub fn previous_server(&mut self)
        requires
            old(self).well_formed(),
        ensures
            final(self).well_formed(),
            final(self).selected_server_index == (old(self).selected_server_index + (
            old(self).servers@.len() as int) - 1) % (old(self).servers@.len() as int),
            final(self).servers == old(self).servers,
            final(self).update_delay == old(self).update_delay,
            final(self).graph_squash_factor == old(self).graph_squash_factor,
    {
        let ghost len = self.servers@.len() as int;
        let ghost sel = self.selected_server_index as int;
        if self.selected_server_index > 0 {
            self.selected_server_index = self.selected_server_index - 1;
            proof {
                assert((sel + len - 1) % len == sel - 1) by (nonlinear_arith)
                    requires
                        0 < sel < len,
                ;
            }
        } else {
            self.selected_server_index = self.servers.len() - 1;
            proof {
                assert((len - 1) % len == len - 1) by (nonlinear_arith)
                    requires
                        len > 0,
                ;
            }
        }
    }

    /// One tick: consume what the selected server's completion channel
    /// yielded, then ask for a fresh fetch if the snapshot has gone stale.
    /// Returns whether the caller must spawn a background fetch now.
    pub fn on_tick(&mut self, now_ms: u64, delivery: Option<Option<PiHoleData>>) -> (spawn: bool)
        requires
            old(self).well_formed(),
        ensures
            final(self).well_formed(),
            ({
                let s0 = old(self).spec_selected();
                let (s1, _updated) = s0.spec_check_background_update(now_ms, delivery);
                let (s2, sp) = if s1.spec_is_stale(now_ms, old(self).update_delay) {
                    s1.spec_run_background_update(now_ms)
                } else {
                    (s1, false)
                };
                &&& final(self).servers@ == old(self).servers@.update(
                    old(self).selected_server_index as int,
                    s2,
                )
                &&& spawn == sp
            }),
            final(self).selected_server_index == old(self).selected_server_index,
            final(self).update_delay == old(self).update_delay,
            final(self).graph_squash_factor == old(self).graph_squash_factor,
    {
        let idx = self.selected_server_index;
        let update_delay = self.update_delay;
        let server = &mut self.servers[idx];
        let _updated = server.check_background_update(now_ms, delivery);
        let spawn = if server.is_stale(now_ms, update_delay) {
            server.run_background_update(now_ms)
        } else {
            false
        };
        spawn
    }

    /// Force a refresh of the selected server, bypassing the staleness
    /// check. Returns whether the caller must spawn a background fetch now.
    pub fn on_space(&mut self, now_ms: u64) -> (spawn: bool)
        requires
            old(self).well_formed(),
        ensures
            final(self).well_formed(),
            ({
                let (s2, sp) = old(self).spec_selected().spec_run_background_update(now_ms);
                &&& final(self).servers@ == old(self).servers@.update(
                    old(self).selected_server_index as int,
                    s2,
                )
                &&& spawn == sp
            }),
            final(self).selected_server_index == old(self).selected_server_index,
            final(self).update_delay == old(self).update_delay,
            final(self).graph_squash_factor == old(self).graph_squash_factor,
    {
        let idx = self.selected_server_index;
        let server = &mut self.servers[idx];
        server.run_background_update(now_ms)
    }

    /// Zoom the chart in: halve the squash factor, never below one.
    pub fn on_z(&mut self)
        requires
            old(self).well_formed(),
        ensures
            final(self).well_formed(),
            final(self).graph_squash_factor == spec_zoom_in(old(self).graph_squash_factor),
            final(self).graph_squash_factor >= 1,
            final(self).selected_server_index == old(self).selected_server_index,
            final(self).servers == old(self).servers,
            final(self).update_delay == old(self).update_delay,
    {
        if self.graph_squash_factor > 1 {
            self.graph_squash_factor = self.graph_squash_factor / 2;
        }
    }

    /// Zoom the chart out: double the squash factor, capped where doubling
    /// would no longer be representable. The factor never shrinks, and in
    /// particular never wraps around.
    pub fn on_x(&mut self)
        requires
            old(self).well_formed(),
        ensures
            final(self).well_formed(),
            final(self).graph_squash_factor == spec_zoom_out(old(self).graph_squash_factor),
            final(self).graph_squash_factor >= old(self).graph_squash_factor,
            final(self).selected_server_index == old(self).selected_server_index,
            final(self).servers == old(self).servers,
            final(self).update_delay == old(self).update_delay,
    {
        if self.graph_squash_factor <= usize::MAX / 2 {
            self.graph_squash_factor = self.graph_squash_factor * 2;
        }
    }

    /// Enable blocking on the selected server, then refresh it. The mutation
    /// is returned only when the server carries an API key (without one the
    /// command is a silent no-op); the caller performs it against the
    /// provider before spawning the fetch, and reports a failure rather than
    /// aborting.
    pub fn on_e(&mut self, now_ms: u64) -> (r: (Option<ProviderMutation>, bool))
        requires
            old(self).well_formed(),
        ensures
            final(self).well_formed(),
            r.0 == (if old(self).spec_selected().api_config is WithKey {
                Some(ProviderMutation::Enable)
            } else {
                None::<ProviderMutation>
            }),
            ({
                let (s2, sp) = old(self).spec_selected().spec_run_background_update(now_ms);
                &&& final(self).servers@ == old(self).servers@.update(
                    old(self).selected_server_index as int,
                    s2,
                )
                &&& r.1 == sp
            }),
            final(self).selected_server_index == old(self).selected_server_index,
            final(self).update_delay == old(self).update_delay,
            final(self).graph_squash_factor == old(self).graph_squash_factor,
    {
        let idx = self.selected_server_index;
        let server = &mut self.servers[idx];
        let mutation = match server.api_config.get_authenticated_api() {
            None => None,
            Some(_cfg) => Some(ProviderMutation::Enable),
        };
        let spawn = server.run_background_update(now_ms);
        (mutation, spawn)
    }

    /// Disable blocking on the selected server for `DISABLE_SECONDS`, then
    /// refresh it. As with enabling: no key, no mutation; failures are
    /// reported, not fatal.
    pub fn on_d(&mut self, now_ms: u64) -> (r: (Option<ProviderMutation>, bool))
        requires
            old(self).well_formed(),
        ensures
            final(self).well_formed(),
            r.0 == (if old(self).spec_selected().api_config is WithKey {
                Some(ProviderMutation::Disable { duration_seconds: DISABLE_SECONDS })
            } else {
                None::<ProviderMutation>
            }),
            ({
                let (s2, sp) = old(self).spec_selected().spec_run_background_update(now_ms);
                &&& final(self).servers@ == old(self).servers@.update(
                    old(self).selected_server_index as int,
                    s2,
                )
                &&& r.1 == sp
            }),
            final(self).selected_server_index == old(self).selected_server_index,
            final(self).update_delay == old(self).update_delay,
            final(self).graph_squash_factor == old(self).graph_squash_factor,
    {
        let idx = self.selected_server_index;
        let server = &mut self.servers[idx];
        let mutation = match server.api_config.get_authenticated_api() {
            None => None,
            Some(_cfg) => Some(ProviderMutation::Disable { duration_seconds: DISABLE_SECONDS }),
        };
        let spawn = server.run_background_update(now_ms);
        (mutation, spawn)
    }
}

} // verus!
