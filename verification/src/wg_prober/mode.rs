//! How hard to look for an endpoint.

use vstd::prelude::*;

use crate::text::{chars_of, matches_word, trim};
#[allow(unused_imports)]
use crate::text::{is_space, is_word, lower, trimmed};

verus! {

#[derive(Debug, Clone, Copy, PartialEq, Eq, Structural)]
pub enum WgScanMode {
    Turbo,
    Balanced,
    Thorough,
    Stealth,
    Ironclad,
}

/// What a mode asks of a scan. Times are nanoseconds.
#[derive(Debug, Clone, Copy, PartialEq, Eq, Structural)]
pub struct WgStrategy {
    /// Probes at once.
    pub concurrency: usize,
    pub per_probe_timeout: u64,
    pub overall_deadline: u64,
    /// How long to go on looking once the target is reached.
    pub quiet_after_first: u64,
    /// How many endpoints are enough; zero for as many as there are.
    pub target_successes: usize,
    /// Whether the first good endpoint ends the scan.
    pub early_exit_first: bool,
    /// Whether every host of a range is tried.
    pub full_subnet: bool,
    /// Otherwise, how many hosts of a range are.
    pub sample_per_cidr: u32,
    /// How many ports each address is tried on.
    pub pool_port_waves: usize,
}

/// The mode that a setting names. Any other text means the balanced one.
pub open spec fn mode_named(s: Seq<char>) -> WgScanMode {
    let word = trimmed(s);
    if is_word(word, "turbo"@) || is_word(word, "fast"@) {
        WgScanMode::Turbo
    } else if is_word(word, "thorough"@) || is_word(word, "deep"@) || is_word(word, "pro"@) {
        WgScanMode::Thorough
    } else if is_word(word, "stealth"@) || is_word(word, "quiet"@) {
        WgScanMode::Stealth
    } else if is_word(word, "ironclad"@) || is_word(word, "real"@) || is_word(word, "verify"@)
        || is_word(word, "guaranteed"@) {
        WgScanMode::Ironclad
    } else {
        WgScanMode::Balanced
    }
}

/// The name of a mode.
pub open spec fn name_of(mode: WgScanMode) -> Seq<char> {
    match mode {
        WgScanMode::Turbo => "turbo"@,
        WgScanMode::Balanced => "balanced"@,
        WgScanMode::Thorough => "thorough"@,
        WgScanMode::Stealth => "stealth"@,
        WgScanMode::Ironclad => "ironclad"@,
    }
}

/// What a mode asks of a scan.
pub open spec fn strategy_of(mode: WgScanMode) -> WgStrategy {
    match mode {
        WgScanMode::Turbo => WgStrategy {
            concurrency: 12,
            per_probe_timeout: 5_000_000_000,
            overall_deadline: 30_000_000_000,
            quiet_after_first: 0,
            target_successes: 1,
            early_exit_first: true,
            full_subnet: false,
            sample_per_cidr: 40,
            pool_port_waves: 1,
        },
        WgScanMode::Balanced => WgStrategy {
            concurrency: 8,
            per_probe_timeout: 7_000_000_000,
            overall_deadline: 80_000_000_000,
            quiet_after_first: 12_000_000_000,
            target_successes: 5,
            early_exit_first: false,
            full_subnet: false,
            sample_per_cidr: 120,
            pool_port_waves: 3,
        },
        WgScanMode::Thorough => WgStrategy {
            concurrency: 10,
            per_probe_timeout: 9_000_000_000,
            overall_deadline: 250_000_000_000,
            quiet_after_first: 25_000_000_000,
            target_successes: 0,
            early_exit_first: false,
            full_subnet: true,
            sample_per_cidr: 0,
            pool_port_waves: 4,
        },
        WgScanMode::Stealth => WgStrategy {
            concurrency: 3,
            per_probe_timeout: 10_000_000_000,
            overall_deadline: 150_000_000_000,
            quiet_after_first: 20_000_000_000,
            target_successes: 3,
            early_exit_first: false,
            full_subnet: false,
            sample_per_cidr: 50,
            pool_port_waves: 2,
        },
        WgScanMode::Ironclad => WgStrategy {
            concurrency: 4,
            per_probe_timeout: 15_000_000_000,
            overall_deadline: 180_000_000_000,
            quiet_after_first: 15_000_000_000,
            target_successes: 3,
            early_exit_first: false,
            full_subnet: false,
            sample_per_cidr: 120,
            pool_port_waves: 3,
        },
    }
}

impl WgScanMode {
    /// Reads the mode from a setting.
    pub fn parse(s: &str) -> (r: WgScanMode)
        ensures
            r == mode_named(s@),
    {
        let word = trim(&chars_of(s));
        if matches_word(&word, "turbo") || matches_word(&word, "fast") {
            WgScanMode::Turbo
        } else if matches_word(&word, "thorough") || matches_word(&word, "deep") || matches_word(
            &word,
            "pro",
        ) {
            WgScanMode::Thorough
        } else if matches_word(&word, "stealth") || matches_word(&word, "quiet") {
            WgScanMode::Stealth
        } else if matches_word(&word, "ironclad") || matches_word(&word, "real") || matches_word(
            &word,
            "verify",
        ) || matches_word(&word, "guaranteed") {
            WgScanMode::Ironclad
        } else {
            WgScanMode::Balanced
        }
    }

    /// The name of the mode.
    pub fn label(&self) -> (r: &'static str)
        ensures
            r@ == name_of(*self),
    {
        match self {
            WgScanMode::Turbo => "turbo",
            WgScanMode::Balanced => "balanced",
            WgScanMode::Thorough => "thorough",
            WgScanMode::Stealth => "stealth",
            WgScanMode::Ironclad => "ironclad",
        }
    }

    /// What the mode asks of a scan.
    pub fn strategy(&self) -> (r: WgStrategy)
        ensures
            r == strategy_of(*self),
    {
        match self {
            WgScanMode::Turbo => WgStrategy {
                concurrency: 12,
                per_probe_timeout: 5_000_000_000,
                overall_deadline: 30_000_000_000,
                quiet_after_first: 0,
                target_successes: 1,
                early_exit_first: true,
                full_subnet: false,
                sample_per_cidr: 40,
                pool_port_waves: 1,
            },
            WgScanMode::Balanced => WgStrategy {
                concurrency: 8,
                per_probe_timeout: 7_000_000_000,
                overall_deadline: 80_000_000_000,
                quiet_after_first: 12_000_000_000,
                target_successes: 5,
                early_exit_first: false,
                full_subnet: false,
                sample_per_cidr: 120,
                pool_port_waves: 3,
            },
            WgScanMode::Thorough => WgStrategy {
                concurrency: 10,
                per_probe_timeout: 9_000_000_000,
                overall_deadline: 250_000_000_000,
                quiet_after_first: 25_000_000_000,
                target_successes: 0,
                early_exit_first: false,
                full_subnet: true,
                sample_per_cidr: 0,
                pool_port_waves: 4,
            },
            WgScanMode::Stealth => WgStrategy {
                concurrency: 3,
                per_probe_timeout: 10_000_000_000,
                overall_deadline: 150_000_000_000,
                quiet_after_first: 20_000_000_000,
                target_successes: 3,
                early_exit_first: false,
                full_subnet: false,
                sample_per_cidr: 50,
                pool_port_waves: 2,
            },
            WgScanMode::Ironclad => WgStrategy {
                concurrency: 4,
                per_probe_timeout: 15_000_000_000,
                overall_deadline: 180_000_000_000,
                quiet_after_first: 15_000_000_000,
                target_successes: 3,
                early_exit_first: false,
                full_subnet: false,
                sample_per_cidr: 120,
                pool_port_waves: 3,
            },
        }
    }
}

/// A mode is read back from its name.
pub proof fn modes_read_back(mode: WgScanMode)
    ensures
        mode_named(name_of(mode)) == mode,
{
    reveal_strlit("turbo");
    reveal_strlit("fast");
    reveal_strlit("thorough");
    reveal_strlit("deep");
    reveal_strlit("pro");
    reveal_strlit("stealth");
    reveal_strlit("quiet");
    reveal_strlit("ironclad");
    reveal_strlit("real");
    reveal_strlit("verify");
    reveal_strlit("guaranteed");
    reveal_strlit("balanced");
    let s = name_of(mode);
    assert(!is_space(s[0]));
    assert(!is_space(s.last()));
    assert(trimmed(s) == s);
    assert(forall|i: int| 0 <= i < s.len() ==> lower(s[i]) == s[i]);
    if mode is Stealth {
        assert(!is_word(s, "thorough"@));
        assert(lower(s[0]) != "thorough"@[0]);
    }
    if mode is Balanced {
        assert(lower(s[0]) == 'b');
        assert("thorough"@[0] != 'b' && "ironclad"@[0] != 'b');
    }
    if mode is Ironclad {
        assert(lower(s[0]) == 'i');
        assert("thorough"@[0] != 'i');
    }
}

} // verus!
