//! The service body's decisions: run the chosen strategy, watch that it
//! still works, and re-measure when it stops, without the user touching a
//! thing. The engine, the health checks and the re-measuring run outside this
//! crate; here is which site is watched, how often, when a failure counts,
//! when to give up and retry, and what a re-measure changes.

use vstd::prelude::*;
use vstd::string::{StringExecFns, StrSliceExecFns};

use crate::config::Config;
use crate::probe::Reachable;
use crate::text::{parse_unsigned, parse_unsigned_of, trim_white_space, trimmed};

verus! {

/// The site watched when the configuration names none.
pub open spec fn default_canary() -> Seq<char> {
    "www.roblox.com"@
}

/// The site the health monitor watches: the configured one, or the default
/// if that is blank.
pub fn canary_for(cfg: &Config) -> (r: String)
    ensures
        r@ == if trimmed(cfg.canary@).len() == 0 {
            default_canary()
        } else {
            cfg.canary@
        },
{
    let t = trim_white_space(cfg.canary.as_str());
    if t.as_str().unicode_len() == 0 {
        String::from_str("www.roblox.com")
    } else {
        cfg.canary.clone()
    }
}

/// Seconds between health checks, from the `MOLE_HEALTH_SECS` setting: its
/// number if it reads as one, 180 otherwise, and never under 3.
pub fn health_interval_secs(setting: Option<&str>) -> (r: u64)
    ensures
        ({
            let n = match setting {
                Some(s) => match parse_unsigned(s@, u64::MAX as nat) {
                    Some(v) => v,
                    None => 180,
                },
                None => 180,
            };
            r == if n < 3 {
                3
            } else {
                n
            }
        }),
{
    let n = match setting {
        Some(s) => match parse_unsigned_of(s, u64::MAX) {
            Some(v) => v,
            None => 180,
        },
        None => 180,
    };
    if n < 3 {
        3
    } else {
        n
    }
}

/// Consecutive blocked checks that trigger a re-measure, from the
/// `MOLE_HEALTH_FAILS` setting: its number if it reads as one, 3 otherwise,
/// and never under 1.
pub fn fail_threshold(setting: Option<&str>) -> (r: u32)
    ensures
        ({
            let n = match setting {
                Some(s) => match parse_unsigned(s@, u32::MAX as nat) {
                    Some(v) => v,
                    None => 3,
                },
                None => 3,
            };
            r == if n < 1 {
                1
            } else {
                n
            }
        }),
{
    let n = match setting {
        Some(s) => match parse_unsigned_of(s, 0xFFFF_FFFF) {
            Some(v) => v as u32,
            None => 3,
        },
        None => 3,
    };
    if n < 1 {
        1
    } else {
        n
    }
}

/// How many quarter-second naps make up one interval between checks (at
/// least one), so that a stop is noticed quickly.
pub fn naps_per_interval(interval_secs: u64) -> (r: u128)
    ensures
        r == if interval_secs * 1000 / 250 < 1 {
            1
        } else {
            interval_secs * 1000 / 250
        },
{
    let ms = (interval_secs as u128) * 1000;
    let n = ms / 250;
    if n < 1 {
        1
    } else {
        n
    }
}

/// What the health monitor does after one check.
#[derive(Clone, Copy, Debug, PartialEq, Eq, Structural)]
pub enum HealthStep {
    /// Keep watching, with this many consecutive blocked checks.
    Watch(u32),
    /// The strategy stopped working: stop the engine and re-measure.
    Remeasure,
}

/// Count a check: a success clears the count, a block adds one and triggers
/// a re-measure at the threshold, and a DNS or IP-level failure is not the
/// strategy's fault and changes nothing.
pub fn health_step(fails: u32, threshold: u32, check: &Reachable) -> (r: HealthStep)
    requires
        fails < threshold,
    ensures
        match check {
            Reachable::Yes => r == HealthStep::Watch(0),
            Reachable::Blocked(_) => if fails + 1 >= threshold {
                r == HealthStep::Remeasure
            } else {
                r == HealthStep::Watch((fails + 1) as u32)
            },
            Reachable::IpBlocked | Reachable::DnsFailed(_) => r == HealthStep::Watch(fails),
        },
        r matches HealthStep::Watch(f) ==> f < threshold,
{
    match check {
        Reachable::Yes => HealthStep::Watch(0),
        Reachable::Blocked(_) => {
            let f = fails + 1;
            if f >= threshold {
                HealthStep::Remeasure
            } else {
                HealthStep::Watch(f)
            }
        },
        Reachable::IpBlocked | Reachable::DnsFailed(_) => HealthStep::Watch(fails),
    }
}

/// How one run of the engine ended.
#[derive(Clone, Copy, Debug, PartialEq, Eq, Structural)]
pub enum RunEnd {
    /// The service manager asked the service to stop.
    Stopped,
    /// The health monitor asked for a re-measure, and it ran.
    Remeasured,
    /// Something failed: the driver, the engine, or the engine's loop.
    Failed,
}

/// How a run of the engine ended, from whether a stop was requested and
/// whether the health monitor asked for a re-measure. A stop wins.
pub fn run_end(stop_requested: bool, remeasure_requested: bool) -> (r: RunEnd)
    ensures
        stop_requested ==> r == RunEnd::Stopped,
        !stop_requested && remeasure_requested ==> r == RunEnd::Remeasured,
        !stop_requested && !remeasure_requested ==> r == RunEnd::Failed,
{
    if stop_requested {
        RunEnd::Stopped
    } else if remeasure_requested {
        RunEnd::Remeasured
    } else {
        RunEnd::Failed
    }
}

/// Failed runs in a row after which the service gives up in-process and
/// leaves the restart to the service manager.
pub const MAX_ATTEMPTS: u32 = 5;

/// What the service loop does after a run.
#[derive(Clone, Copy, Debug, PartialEq, Eq, Structural)]
pub enum ServeStep {
    /// Leave the loop: the service is stopping.
    Stop,
    /// Run again after pausing this long, with this many failures so far.
    Again { failures: u32, pause_ms: u64 },
    /// Exit the process with an error so the service manager restarts it.
    GiveUp,
}

/// After a run: stop when asked, start over after a re-measure, and back off
/// a little longer after each failure until [`MAX_ATTEMPTS`] in a row.
pub fn serve_step(failures: u32, end: RunEnd) -> (r: ServeStep)
    requires
        failures < MAX_ATTEMPTS,
    ensures
        match end {
            RunEnd::Stopped => r == ServeStep::Stop,
            RunEnd::Remeasured => r == (ServeStep::Again { failures: 0, pause_ms: 0 }),
            RunEnd::Failed => if failures + 1 >= MAX_ATTEMPTS {
                r == ServeStep::GiveUp
            } else {
                r == (ServeStep::Again {
                    failures: (failures + 1) as u32,
                    pause_ms: (500 * (failures + 1)) as u64,
                })
            },
        },
        r matches ServeStep::Again { failures: f, .. } ==> f < MAX_ATTEMPTS,
{
    match end {
        RunEnd::Stopped => ServeStep::Stop,
        RunEnd::Remeasured => ServeStep::Again { failures: 0, pause_ms: 0 },
        RunEnd::Failed => {
            let f = failures + 1;
            if f >= MAX_ATTEMPTS {
                ServeStep::GiveUp
            } else {
                ServeStep::Again { failures: f, pause_ms: 500 * (f as u64) }
            }
        },
    }
}

/// What a re-measure changes.
pub enum Remeasure {
    /// A different strategy wins now: save this configuration.
    Switch(Config),
    /// The same strategy still wins.
    Same,
    /// Nothing got through.
    NothingWorks,
}

/// What to do with a re-measure's winner: switch to a different winner,
/// keeping the resolver, the QUIC choice and the watched site.
pub fn after_remeasure(cfg: &Config, canary: &str, winner: Option<String>) -> (r: Remeasure)
    ensures
        match winner {
            None => r is NothingWorks,
            Some(w) => if w@ == cfg.strategy@ {
                r is Same
            } else {
                r matches Remeasure::Switch(c) && c.strategy@ == w@ && c.resolver@ == cfg.resolver@
                    && c.block_quic == cfg.block_quic && c.canary@ == canary@
            },
        },
{
    match winner {
        None => Remeasure::NothingWorks,
        Some(w) => {
            if w == cfg.strategy {
                Remeasure::Same
            } else {
                Remeasure::Switch(
                    Config::new(w.as_str(), cfg.resolver.as_str()).quic(cfg.block_quic).canary(
                        canary,
                    ),
                )
            }
        },
    }
}

} // verus!
