//! How a scan goes on and when it ends. Times are nanoseconds.

use vstd::prelude::*;

use crate::addr::{Endpoint, IpAddress};
use crate::sysprofile::{cap_concurrency, Tuning};
#[allow(unused_imports)]
use crate::sysprofile::smaller;
use crate::text::{chars_of, parse_number, trim};
#[allow(unused_imports)]
use crate::text::{number, trimmed};
#[allow(unused_imports)]
use crate::wg_prober::manual::setting;
use crate::wg_prober::mode::{WgScanMode, WgStrategy};
#[allow(unused_imports)]
use crate::wg_prober::mode::strategy_of;
use crate::wg_prober::select::{apply_rtt_floor, distinct_by_ip, WgProbeResult};
#[allow(unused_imports)]
use crate::wg_prober::select::{
    address_count,
    addresses,
    answers_at,
    floored,
    offers_are_the_quickest,
    ranks,
};

verus! {

/// How quick an answer has to be for a scan to end with it, unless a setting
/// says otherwise, in milliseconds.
pub const GOOD_RTT_MS: u64 = 180;

/// How long a scan goes on after a slow first answer, unless a setting says
/// otherwise, in milliseconds.
pub const SLOW_FIRST_GRACE_MS: u64 = 1200;

/// The milliseconds that a setting gives, where it gives a positive number.
pub open spec fn millis(s: Option<Seq<char>>) -> Option<nat> {
    match s {
        Some(text) => match number(trimmed(text), u64::MAX as nat) {
            Some(ms) if ms > 0 => Some(ms),
            _ => None,
        },
        None => None,
    }
}

/// Milliseconds in nanoseconds, as far as these can be told.
pub open spec fn nanos(ms: nat) -> u64 {
    if ms * 1_000_000 <= u64::MAX {
        (ms * 1_000_000) as u64
    } else {
        u64::MAX
    }
}

fn read_millis(s: Option<&str>) -> (r: Option<u64>)
    ensures
        match r {
            Some(ms) => millis(setting(s)) == Some(ms as nat),
            None => millis(setting(s)) is None,
        },
{
    match s {
        None => None,
        Some(text) => {
            let word = trim(&chars_of(text));
            match parse_number(&word, u64::MAX) {
                Some(ms) => if ms > 0 {
                    Some(ms)
                } else {
                    None
                },
                None => None,
            }
        },
    }
}

fn to_nanos(ms: u64) -> (r: u64)
    ensures
        r == nanos(ms as nat),
{
    if ms <= u64::MAX / 1_000_000 {
        ms * 1_000_000
    } else {
        u64::MAX
    }
}

/// How quick an answer has to be for a scan to end with it: what the setting
/// for scans says, else that for known endpoints.
pub fn good_rtt_budget(scan: Option<&str>, reconnect: Option<&str>) -> (r: u64)
    ensures
        r == match (millis(setting(scan)), millis(setting(reconnect))) {
            (Some(ms), _) => nanos(ms),
            (None, Some(ms)) => nanos(ms),
            (None, None) => nanos(GOOD_RTT_MS as nat),
        },
{
    match read_millis(scan) {
        Some(ms) => to_nanos(ms),
        None => match read_millis(reconnect) {
            Some(ms) => to_nanos(ms),
            None => to_nanos(GOOD_RTT_MS),
        },
    }
}

/// How long a scan goes on after a slow first answer.
pub fn slow_first_grace(grace: Option<&str>) -> (r: u64)
    ensures
        r == match millis(setting(grace)) {
            Some(ms) => nanos(ms),
            None => nanos(SLOW_FIRST_GRACE_MS as nat),
        },
{
    match read_millis(grace) {
        Some(ms) => to_nanos(ms),
        None => to_nanos(SLOW_FIRST_GRACE_MS),
    }
}

/// The later time, or the last one that can be told.
pub open spec fn later(now: u64, by: u64) -> u64 {
    if now + by <= u64::MAX {
        (now + by) as u64
    } else {
        u64::MAX
    }
}

fn after(now: u64, by: u64) -> (r: u64)
    ensures
        r == later(now, by),
{
    if by <= u64::MAX - now {
        now + by
    } else {
        u64::MAX
    }
}

/// The result of a probe: an endpoint that answered counts with the time of
/// its answer, or, where a page was asked for through it, with the time that
/// took; without a page it does not count.
pub open spec fn probe_counts(
    ip: IpAddress,
    port: u16,
    rtt: u64,
    ironclad: bool,
    http_rtt: Option<u64>,
) -> Option<WgProbeResult> {
    if !ironclad {
        Some(WgProbeResult { ip, port, rtt })
    } else {
        match http_rtt {
            Some(rtt) => Some(WgProbeResult { ip, port, rtt }),
            None => None,
        }
    }
}

/// The result of a probe of an endpoint that answered.
pub fn probe_result(
    ip: IpAddress,
    port: u16,
    rtt: u64,
    ironclad: bool,
    http_rtt: Option<u64>,
) -> (r: Option<WgProbeResult>)
    ensures
        r == probe_counts(ip, port, rtt, ironclad, http_rtt),
{
    if !ironclad {
        return Some(WgProbeResult { ip, port, rtt });
    }
    match http_rtt {
        Some(rtt) => Some(WgProbeResult { ip, port, rtt }),
        None => None,
    }
}

/// What a scan does next.
#[derive(Debug, Clone, Copy, PartialEq, Eq, Structural)]
pub enum HuntStep {
    /// Waits for more answers.
    Continue,
    /// Ends, and offers what it found.
    Stop,
    /// Ends with the answer that just came.
    Take,
}

/// Nothing that answers was found.
#[derive(Debug, Clone, Copy, PartialEq, Eq, Structural)]
pub struct NoCleanEndpoint;

/// A scan that is under way.
pub struct Hunt {
    pub strategy: WgStrategy,
    /// How many endpoints are asked for.
    pub want: usize,
    pub deadline: u64,
    /// When the scan ends unless something else ends it before.
    pub quiet_until: Option<u64>,
    pub verified: Vec<WgProbeResult>,
    /// Whether the first answer was slow, so that a quick one ends the scan.
    pub hunting_for_fast: bool,
}

/// What a scan for so many endpoints asks for: one for several takes no first
/// answer alone, and looks for three times as many.
pub open spec fn strategy_for(mode: WgScanMode, want: usize, cap: usize) -> WgStrategy {
    let st = strategy_of(mode);
    let concurrency = smaller(st.concurrency, cap);
    if want > 1 {
        WgStrategy {
            concurrency,
            early_exit_first: false,
            target_successes: if want * 3 > usize::MAX {
                usize::MAX
            } else if st.target_successes < want * 3 {
                (want * 3) as usize
            } else {
                st.target_successes
            },
            ..st
        }
    } else {
        WgStrategy { concurrency, ..st }
    }
}

/// Whether an answer is quick enough to end a scan: within the budget, and no
/// slower than the endpoint to beat.
pub open spec fn fast_enough(rtt: u64, budget: u64, floor: Option<(Endpoint, u64)>) -> bool {
    rtt <= budget && match floor {
        Some((_, limit)) => rtt <= limit,
        None => true,
    }
}

impl Hunt {
    pub open spec fn wf(&self) -> bool {
        &&& self.want >= 1
        &&& self.want > 1 ==> !self.strategy.early_exit_first && !self.hunting_for_fast
        &&& self.hunting_for_fast ==> self.verified@.len() > 0 && self.quiet_until is Some
            && !self.strategy.early_exit_first
        &&& self.quiet_until is Some ==> self.verified@.len() > 0
    }

    /// When the scan ends unless something else ends it before.
    pub open spec fn end(&self) -> u64 {
        match self.quiet_until {
            Some(quiet) if quiet < self.deadline => quiet,
            _ => self.deadline,
        }
    }

    /// Begins a scan for so many endpoints, at least one.
    pub fn begin(mode: WgScanMode, want: usize, tuning: &Tuning, now: u64) -> (r: Hunt)
        ensures
            r.wf(),
            r.want == if want == 0 {
                1
            } else {
                want
            },
            r.strategy == strategy_for(mode, want, tuning.scan_concurrency_cap),
            r.deadline == later(now, strategy_of(mode).overall_deadline),
            r.quiet_until is None,
            r.verified@.len() == 0,
            !r.hunting_for_fast,
    {
        let mut st = mode.strategy();
        st.concurrency = cap_concurrency(tuning, st.concurrency);
        let deadline: u64 = after(now, st.overall_deadline);
        if want > 1 {
            st.early_exit_first = false;
            let target: usize = if want > usize::MAX / 3 {
                usize::MAX
            } else {
                want * 3
            };
            if st.target_successes < target {
                st.target_successes = target;
            }
        }
        Hunt {
            strategy: st,
            want: if want == 0 {
                1
            } else {
                want
            },
            deadline,
            quiet_until: None,
            verified: Vec::new(),
            hunting_for_fast: false,
        }
    }

    /// How long the scan still waits for an answer; zero where it ends.
    pub fn remaining(&self, now: u64) -> (r: u64)
        ensures
            r == if now < self.end() {
                self.end() - now
            } else {
                0
            },
    {
        let end: u64 = match self.quiet_until {
            Some(quiet) => if quiet < self.deadline {
                quiet
            } else {
                self.deadline
            },
            None => self.deadline,
        };
        if now < end {
            end - now
        } else {
            0
        }
    }

    /// What an answer comes to, and the scan after it.
    pub open spec fn answered(
        &self,
        pr: WgProbeResult,
        now: u64,
        budget: u64,
        floor: Option<(Endpoint, u64)>,
        grace: u64,
        next: &Self,
        r: HuntStep,
    ) -> bool {
        let st = self.strategy;
        let found = self.verified@.push(pr);
        let reached = st.target_successes > 0 && found.len() >= st.target_successes
            && self.quiet_until is None;
        &&& next.want == self.want
        &&& next.deadline == self.deadline
        &&& self.want > 1 ==> r != HuntStep::Take
        &&& if (st.early_exit_first || self.hunting_for_fast) && fast_enough(
            pr.rtt,
            budget,
            floor,
        ) {
            &&& r == HuntStep::Take
            &&& *next == *self
        } else if st.early_exit_first {
            &&& r == HuntStep::Continue
            &&& next.strategy == (WgStrategy { early_exit_first: false, ..st })
            &&& next.hunting_for_fast
            &&& next.quiet_until == Some(later(now, grace))
            &&& next.verified@ == found
        } else {
            &&& next.strategy == st
            &&& next.hunting_for_fast == self.hunting_for_fast
            &&& next.verified@ == found
            &&& if self.want > 1 && address_count(found) >= self.want {
                &&& r == HuntStep::Stop
                &&& next.quiet_until == self.quiet_until
            } else if reached && st.quiet_after_first > 0 {
                &&& r == HuntStep::Continue
                &&& next.quiet_until == Some(later(now, st.quiet_after_first))
            } else {
                &&& r == (if reached {
                    HuntStep::Stop
                } else {
                    HuntStep::Continue
                })
                &&& next.quiet_until == self.quiet_until
            }
        }
    }

    /// Takes an answer. A quick first one, or a quick one after a slow first
    /// one, ends the scan; a slow first one is kept, and the scan goes on for
    /// the grace. Any other is kept; the scan ends once enough addresses
    /// answered, and a while after enough answers came.
    pub fn on_result(
        &mut self,
        pr: WgProbeResult,
        now: u64,
        budget: u64,
        floor: Option<(Endpoint, u64)>,
        grace: u64,
    ) -> (r: HuntStep)
        requires
            old(self).wf(),
        ensures
            final(self).wf(),
            old(self).answered(pr, now, budget, floor, grace, final(self), r),
    {
        let fast = pr.rtt <= budget && match floor {
            Some((_, limit)) => pr.rtt <= limit,
            None => true,
        };
        if (self.strategy.early_exit_first || self.hunting_for_fast) && fast {
            return HuntStep::Take;
        }
        self.verified.push(pr);
        if self.strategy.early_exit_first {
            self.strategy.early_exit_first = false;
            self.hunting_for_fast = true;
            self.quiet_until = Some(after(now, grace));
            return HuntStep::Continue;
        }
        if self.want > 1 {
            let offered = distinct_by_ip(&self.verified);
            proof {
                let places = choose|places: Seq<int>| #[trigger]
                    ranks(self.verified@, places) && offered@ == answers_at(self.verified@, places);
                offers_are_the_quickest(self.verified@, places);
            }
            if offered.len() >= self.want {
                return HuntStep::Stop;
            }
        }
        if self.strategy.target_successes > 0 && self.verified.len()
            >= self.strategy.target_successes && self.quiet_until.is_none() {
            if self.strategy.quiet_after_first > 0 {
                self.quiet_until = Some(after(now, self.strategy.quiet_after_first));
            } else {
                return HuntStep::Stop;
            }
        }
        HuntStep::Continue
    }

    /// Ends the scan: the quickest answers of as many addresses as were asked
    /// for, quickest first, with the endpoint to beat before them where none
    /// beats it. There is nothing to offer where nothing answered.
    pub fn finish(&self, floor: Option<(Endpoint, u64)>) -> (r: Result<
        Vec<WgProbeResult>,
        NoCleanEndpoint,
    >)
        ensures
            r is Err <==> self.verified@.len() == 0,
            r matches Ok(list) ==> exists|places: Seq<int>| #[trigger]
                ranks(self.verified@, places) && list@ == first_of(
                    floored(answers_at(self.verified@, places), floor),
                    self.want as nat,
                ),
    {
        let offered = distinct_by_ip(&self.verified);
        let ghost places = choose|places: Seq<int>| #[trigger]
            ranks(self.verified@, places) && offered@ == answers_at(self.verified@, places);
        proof {
            offers_are_the_quickest(self.verified@, places);
            if self.verified@.len() > 0 {
                let ip = self.verified@[0].ip;
                assert(addresses(self.verified@)[0] == ip);
                assert(addresses(self.verified@).to_set().contains(ip));
                assert(addresses(offered@).to_set().contains(ip));
                let i = choose|i: int|
                    0 <= i < addresses(offered@).len() && addresses(offered@)[i] == ip;
                assert(offered@.len() > i);
            } else {
                if offered@.len() > 0 {
                    let ip = addresses(offered@)[0];
                    assert(addresses(offered@).contains(ip));
                    assert(addresses(offered@).to_set().contains(ip));
                    assert(addresses(self.verified@).contains(ip));
                }
            }
        }
        let picked = apply_rtt_floor(offered, floor);
        if picked.len() == 0 {
            return Err(NoCleanEndpoint);
        }
        let mut list: Vec<WgProbeResult> = Vec::new();
        let mut i: usize = 0;
        while i < picked.len() && i < self.want
            invariant
                i <= picked@.len(),
                i <= self.want,
                list@ == picked@.take(i as int),
            decreases picked@.len() - i,
        {
            list.push(picked[i]);
            i = i + 1;
            assert(list@ =~= picked@.take(i as int));
        }
        assert(ranks(self.verified@, places) && list@ == first_of(
            floored(answers_at(self.verified@, places), floor),
            self.want as nat,
        ));
        Ok(list)
    }
}

/// The first answers of the list, no more than `n`.
pub open spec fn first_of(list: Seq<WgProbeResult>, n: nat) -> Seq<WgProbeResult> {
    if n < list.len() {
        list.take(n as int)
    } else {
        list
    }
}

/// A scan that found anything offers something, no more than was asked for, and
/// nothing that answered, nor the endpoint to beat, is quicker than what it
/// offers first.
pub proof fn the_best_is_offered_first(
    found: Seq<WgProbeResult>,
    places: Seq<int>,
    floor: Option<(Endpoint, u64)>,
    want: nat,
)
    requires
        ranks(found, places),
        found.len() > 0,
        want >= 1,
    ensures
        ({
            let list = first_of(floored(answers_at(found, places), floor), want);
            &&& 1 <= list.len() <= want
            &&& forall|k: int| 0 <= k < found.len() ==> list[0].rtt <= (#[trigger] found[k]).rtt
            &&& floor matches Some((_, limit)) ==> list[0].rtt <= limit
        }),
{
    let offered = answers_at(found, places);
    offers_are_the_quickest(found, places);
    assert forall|k: int| 0 <= k < found.len() implies offered.len() > 0 && offered[0].rtt <= (
    #[trigger] found[k]).rtt by {
        let ip = found[k].ip;
        assert(addresses(found)[k] == ip);
        assert(addresses(found).to_set().contains(ip));
        assert(addresses(offered).to_set().contains(ip));
        let i = choose|i: int| 0 <= i < addresses(offered).len() && addresses(offered)[i] == ip;
        assert(offered[i].ip == ip);
        assert(offered[i].rtt <= found[k].rtt);
        if i > 0 {
            assert(offered[0].rtt <= offered[i].rtt);
        }
    }
    assert(found[0].rtt >= offered[0].rtt);
}

} // verus!
