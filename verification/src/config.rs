//! Policy configuration.
//!
//! `Config` is the global configuration: one set of policy thresholds
//! per power/performance mode, and the table resolving package names to
//! target frame rates.  `PolicyConfig` is the ephemeral, mode-resolved
//! set of thresholds the analyzers run against; it is recomputed per
//! analysis call since the mode may change between calls.

use vstd::prelude::*;

use crate::buffer::Buffer;

verus! {

/// Active power/performance mode of the device.
#[derive(Debug, Clone, Copy, PartialEq, Eq, Structural)]
pub enum Mode {
    Powersave,
    Balance,
    Performance,
    Fast,
}

/// Thresholds one analysis call runs against.
///
/// `acc_dur` is the minimum elapsed accumulation window, in frame
/// intervals, before the frame analyzer may decide.  The three scales
/// are normalized-overrun thresholds in parts per billion: `scale`
/// bounds the cumulative overrun of a window, `jank_scale` and
/// `big_jank_scale` bound the single-evaluation overrun of the long-run
/// average.
#[derive(Debug, Clone, Copy, PartialEq, Eq, Structural)]
pub struct PolicyConfig {
    pub acc_dur: u32,
    pub scale: i64,
    pub jank_scale: i64,
    pub big_jank_scale: i64,
}

impl PolicyConfig {
    /// A moderate jank never outranks a severe one.
    pub open spec fn wf(self) -> bool {
        self.jank_scale <= self.big_jank_scale
    }
}

/// Global configuration: per-mode thresholds and the package table.
pub struct Config {
    pub powersave: PolicyConfig,
    pub balance: PolicyConfig,
    pub performance: PolicyConfig,
    pub fast: PolicyConfig,
    pub target_fps_table: Vec<(String, u32)>,
}

/// The thresholds a mode selects.
pub open spec fn spec_mode_config(config: Config, mode: Mode) -> PolicyConfig {
    match mode {
        Mode::Powersave => config.powersave,
        Mode::Balance => config.balance,
        Mode::Performance => config.performance,
        Mode::Fast => config.fast,
    }
}

/// First match wins in the package table.
pub open spec fn spec_target_fps(table: Seq<(String, u32)>, pkg: Seq<char>) -> Option<u32>
    decreases table.len(),
{
    if table.len() == 0 {
        None
    } else if table[0].0@ == pkg {
        Some(table[0].1)
    } else {
        spec_target_fps(table.drop_first(), pkg)
    }
}

impl Config {
    pub open spec fn wf(&self) -> bool {
        &&& self.powersave.wf()
        &&& self.balance.wf()
        &&& self.performance.wf()
        &&& self.fast.wf()
    }

    /// Resolve a package name to its target frame rate; `None` means the
    /// package is untracked.
    pub fn target_fps(&self, pkg: &String) -> (r: Option<u32>)
        ensures
            r == spec_target_fps(self.target_fps_table@, pkg@),
    {
        let n = self.target_fps_table.len();
        let mut i: usize = 0;
        proof {
            assert(self.target_fps_table@.skip(0) =~= self.target_fps_table@);
        }
        while i < n
            invariant
                i <= n,
                n == self.target_fps_table@.len(),
                spec_target_fps(self.target_fps_table@, pkg@)
                    == spec_target_fps(self.target_fps_table@.skip(i as int), pkg@),
            decreases n - i,
        {
            let entry = &self.target_fps_table[i];
            proof {
                assert(self.target_fps_table@.skip(i as int)[0]
                    == self.target_fps_table@[i as int]);
                assert(self.target_fps_table@.skip(i as int).drop_first()
                    =~= self.target_fps_table@.skip(i as int + 1));
            }
            if entry.0 == *pkg {
                return Some(entry.1);
            }
            i += 1;
        }
        proof {
            assert(self.target_fps_table@.skip(i as int).len() == 0);
        }
        None
    }
}

/// Mode-aware threshold resolution: a pure function of the global
/// configuration and the active mode.  The surface's target rate enters
/// the policy through the analyzers' window gate, which measures
/// `acc_dur` in that surface's frame intervals.
impl PolicyConfig {
    pub fn new(config: &Config, mode: Mode, buffer: &Buffer) -> (r: PolicyConfig)
        ensures
            r == spec_mode_config(*config, mode),
    {
        let _ = buffer;
        match mode {
            Mode::Powersave => config.powersave,
            Mode::Balance => config.balance,
            Mode::Performance => config.performance,
            Mode::Fast => config.fast,
        }
    }
}

} // verus!
