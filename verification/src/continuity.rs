//! Continuity logging decisions: resolved settings and the sampling rule.
//! Writing, flushing and rotating the log files is a collaborator's job.

use crate::config::{HarnessConfig, LogSampling};
use crate::strutil::ends_with;
use vstd::prelude::*;

verus! {

/// How densely progress events are recorded.
#[derive(Clone, Copy, Debug, PartialEq, Eq, Structural)]
pub enum SamplingMode {
    Milestones,
    All,
    Off,
}

/// The resolved continuity-logging settings.
pub struct ContinuitySettings {
    pub progress_file: String,
    pub sampling_mode: SamplingMode,
    pub batch_interval_secs: u32,
    pub max_log_size_kb: u64,
    pub retained_logs: u64,
}

/// Where a relative path lands under a root, as path joining resolves it:
/// an absolute path stands alone; otherwise it is appended to the root
/// with a separator where one is missing.
pub open spec fn resolve_path_spec(root: Seq<char>, path: Seq<char>) -> Seq<char> {
    if path.len() > 0 && path[0] == '/' {
        path
    } else if root.len() == 0 {
        path
    } else if ends_with(root, "/"@) {
        root + path
    } else {
        root + "/"@ + path
    }
}

/// Joins a root and a possibly-relative path.
pub fn resolve_path(root: &str, path: &str) -> (r: String)
    ensures
        r@ == resolve_path_spec(root@, path@),
{
    let cs = crate::strutil::chars_vec(path);
    if cs.len() > 0 && cs[0] == '/' {
        let mut r = String::new();
        r.append(path);
        assert(r@ =~= path@);
        return r;
    }
    if root.unicode_len() == 0 {
        let mut r = String::new();
        r.append(path);
        assert(r@ =~= path@);
        return r;
    }
    let mut r = String::new();
    r.append(root);
    if !crate::strutil::str_ends_with(root, "/") {
        r.append("/");
    }
    r.append(path);
    assert(r@ =~= resolve_path_spec(root@, path@));
    r
}

/// The progress-file path a configuration names, before root resolution.
pub open spec fn progress_rel_spec(cfg: Option<&HarnessConfig>) -> Seq<char> {
    match cfg {
        Option::Some(c) => match c.continuity {
            Option::Some(cc) => match cc.progress_file {
                Option::Some(p) => p@,
                Option::None => ".harness/progress.md"@,
            },
            Option::None => ".harness/progress.md"@,
        },
        Option::None => ".harness/progress.md"@,
    }
}

/// The sampling mode a configuration selects.
pub open spec fn sampling_spec(cfg: Option<&HarnessConfig>) -> SamplingMode {
    match cfg {
        Option::Some(c) => match c.continuity {
            Option::Some(cc) => match cc.log_sampling {
                Option::Some(LogSampling::All) => SamplingMode::All,
                Option::Some(LogSampling::Off) => SamplingMode::Off,
                _ => SamplingMode::Milestones,
            },
            Option::None => SamplingMode::Milestones,
        },
        Option::None => SamplingMode::Milestones,
    }
}

/// A configured value with a default, floored at one.
pub open spec fn floored(v: Option<u32>, dflt: int) -> int {
    let raw: int = match v {
        Option::Some(x) => x as int,
        Option::None => dflt,
    };
    if raw < 1 {
        1
    } else {
        raw
    }
}

/// Resolves the continuity settings: the progress file under the root, the
/// sampling mode, and the batching, size and retention limits with their
/// defaults, each floored at one.
pub fn resolve_settings(root: &str, cfg: Option<&HarnessConfig>) -> (r: ContinuitySettings)
    ensures
        r.progress_file@ == resolve_path_spec(root@, progress_rel_spec(cfg)),
        r.sampling_mode == sampling_spec(cfg),
        r.batch_interval_secs == floored(
            match cfg {
                Option::Some(c) => match c.continuity {
                    Option::Some(cc) => cc.batch_interval_secs,
                    Option::None => None,
                },
                Option::None => None,
            },
            60,
        ),
        r.max_log_size_kb == floored(
            match cfg {
                Option::Some(c) => match c.continuity {
                    Option::Some(cc) => cc.max_log_size_kb,
                    Option::None => None,
                },
                Option::None => None,
            },
            100,
        ),
        r.retained_logs == floored(
            match cfg {
                Option::Some(c) => match c.continuity {
                    Option::Some(cc) => cc.retained_logs,
                    Option::None => None,
                },
                Option::None => None,
            },
            3,
        ),
{
    let continuity = match cfg {
        Option::Some(c) => c.continuity.as_ref(),
        Option::None => None,
    };
    let progress_file = match continuity {
        Option::Some(cc) => match &cc.progress_file {
            Option::Some(p) => resolve_path(root, p.as_str()),
            Option::None => resolve_path(root, ".harness/progress.md"),
        },
        Option::None => resolve_path(root, ".harness/progress.md"),
    };
    let sampling_mode = match continuity {
        Option::Some(cc) => match cc.log_sampling {
            Option::Some(LogSampling::All) => SamplingMode::All,
            Option::Some(LogSampling::Off) => SamplingMode::Off,
            _ => SamplingMode::Milestones,
        },
        Option::None => SamplingMode::Milestones,
    };
    let batch_raw: u32 = match continuity {
        Option::Some(cc) => match cc.batch_interval_secs {
            Option::Some(v) => v,
            Option::None => 60,
        },
        Option::None => 60,
    };
    let size_raw: u32 = match continuity {
        Option::Some(cc) => match cc.max_log_size_kb {
            Option::Some(v) => v,
            Option::None => 100,
        },
        Option::None => 100,
    };
    let retained_raw: u32 = match continuity {
        Option::Some(cc) => match cc.retained_logs {
            Option::Some(v) => v,
            Option::None => 3,
        },
        Option::None => 3,
    };
    ContinuitySettings {
        progress_file,
        sampling_mode,
        batch_interval_secs: if batch_raw < 1 {
            1
        } else {
            batch_raw
        },
        max_log_size_kb: (if size_raw < 1 {
            1u32
        } else {
            size_raw
        }) as u64,
        retained_logs: (if retained_raw < 1 {
            1u32
        } else {
            retained_raw
        }) as u64,
    }
}

/// Whether a progress (non-milestone) event is recorded under a sampling
/// mode: only when every event is sampled.  Milestones are always
/// recorded.
pub fn should_record_progress(mode: SamplingMode) -> (r: bool)
    ensures
        r == (mode is All),
{
    match mode {
        SamplingMode::All => true,
        SamplingMode::Milestones => false,
        SamplingMode::Off => false,
    }
}

} // verus!
