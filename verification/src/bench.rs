//! Benchmark comparison: compatibility gating between two recorded bench
//! contexts and averaging of run scores.

use crate::error::HarnessError;
use crate::strutil::{join_spec, views_of};
use vstd::prelude::*;

verus! {

/// The environment a bench run was recorded in.
pub struct BenchContext {
    pub os: String,
    pub toolchain: String,
    pub repo_ref: String,
    pub repo_dirty: bool,
    pub harness_version: String,
    pub suite: String,
    pub timestamp: String,
}

/// One bench run's overall score, in thousandths.
pub struct BenchRunResult {
    pub run: u32,
    pub overall_score: i64,
}

/// The sum of the run scores.
pub open spec fn scores_sum(runs: Seq<BenchRunResult>) -> int
    decreases runs.len(),
{
    if runs.len() == 0 {
        0
    } else {
        scores_sum(runs.drop_last()) + runs.last().overall_score as int
    }
}

/// The mean overall score of a run list, zero when it is empty.
pub fn average_overall_score(runs: &Vec<BenchRunResult>) -> (r: i64)
    requires
        forall|i: int| 0 <= i < runs@.len() ==> 0 <= (#[trigger] runs@[i]).overall_score <= 1000,
    ensures
        runs@.len() == 0 ==> r == 0,
        runs@.len() > 0 ==> r == scores_sum(runs@) / runs@.len() as int,
{
    let n = runs.len();
    if n == 0 {
        return 0;
    }
    let mut sum: i128 = 0;
    let mut i: usize = 0;
    proof {
        assert(scores_sum(runs@.take(0)) == 0);
    }
    while i < n
        invariant
            i <= n,
            n == runs@.len(),
            forall|k: int| 0 <= k < runs@.len() ==> 0 <= (#[trigger] runs@[k]).overall_score
                <= 1000,
            0 <= sum <= 1000 * i,
            sum == scores_sum(runs@.take(i as int)),
        decreases n - i,
    {
        proof {
            assert(runs@.take(i + 1).drop_last() =~= runs@.take(i as int));
            assert(runs@.take(i + 1).last() == runs@[i as int]);
            assert(1000 * i + 1000 == 1000 * (i + 1));
        }
        sum = sum + runs[i].overall_score as i128;
        i = i + 1;
    }
    proof {
        assert(runs@.take(n as int) =~= runs@);
        assert(0 <= (sum as int) / (n as int) <= 1000) by (nonlinear_arith)
            requires
                0 <= sum <= 1000 * n,
                n >= 1,
        ;
    }
    let avg: i128 = sum / n as i128;
    avg as i64
}

/// The rendering of a boolean, as `{}` formats it.
pub open spec fn bool_str(b: bool) -> Seq<char> {
    if b {
        "true"@
    } else {
        "false"@
    }
}

/// The incompatibilities between two bench contexts, in reporting order:
/// operating system, toolchain, then working-tree cleanliness.
pub open spec fn mismatch_list(current: &BenchContext, baseline: &BenchContext) -> Seq<Seq<char>> {
    let os: Seq<Seq<char>> = if current.os@ != baseline.os@ {
        seq!["os (baseline="@ + baseline.os@ + ", current="@ + current.os@ + ")"@]
    } else {
        Seq::empty()
    };
    let tc: Seq<Seq<char>> = if current.toolchain@ != baseline.toolchain@ {
        seq![
            "toolchain (baseline="@ + baseline.toolchain@ + ", current="@ + current.toolchain@
                + ")"@,
        ]
    } else {
        Seq::empty()
    };
    let dirty: Seq<Seq<char>> = if current.repo_dirty != baseline.repo_dirty {
        seq![
            "repo_dirty (baseline="@ + bool_str(baseline.repo_dirty) + ", current="@ + bool_str(
                current.repo_dirty,
            ) + ")"@,
        ]
    } else {
        Seq::empty()
    };
    os + tc + dirty
}

fn bool_to_str(b: bool) -> (r: &'static str)
    ensures
        r@ == bool_str(b),
{
    if b {
        "true"
    } else {
        "false"
    }
}

/// Gates a bench comparison on context compatibility: a mismatch in
/// operating system, toolchain or tree cleanliness blocks the comparison
/// unless it is forced, and the error names every mismatch.
pub fn validate_bench_compare_compatibility(
    current: &BenchContext,
    baseline: &BenchContext,
    force_compare: bool,
) -> (r: Result<(), HarnessError>)
    ensures
        match r {
            Result::Ok(_) => mismatch_list(current, baseline).len() == 0 || force_compare,
            Result::Err(e) => match e {
                HarnessError::ConfigParse(m) => mismatch_list(current, baseline).len() > 0
                    && !force_compare && m@ == "bench compare blocked due to incompatible context: "@
                    + join_spec(mismatch_list(current, baseline), ", "@)
                    + ". Re-run with --force-compare to override."@,
                _ => false,
            },
        },
{
    let mut mismatches: Vec<String> = Vec::new();
    proof {
        assert(views_of(mismatches@) =~= Seq::<Seq<char>>::empty());
    }
    if !(current.os == baseline.os) {
        let mut m = String::new();
        m.append("os (baseline=");
        m.append(baseline.os.as_str());
        m.append(", current=");
        m.append(current.os.as_str());
        m.append(")");
        let ghost before = views_of(mismatches@);
        mismatches.push(m);
        assert(views_of(mismatches@) =~= before.push(
            "os (baseline="@ + baseline.os@ + ", current="@ + current.os@ + ")"@,
        ));
    }
    if !(current.toolchain == baseline.toolchain) {
        let mut m = String::new();
        m.append("toolchain (baseline=");
        m.append(baseline.toolchain.as_str());
        m.append(", current=");
        m.append(current.toolchain.as_str());
        m.append(")");
        let ghost before = views_of(mismatches@);
        mismatches.push(m);
        assert(views_of(mismatches@) =~= before.push(
            "toolchain (baseline="@ + baseline.toolchain@ + ", current="@ + current.toolchain@
                + ")"@,
        ));
    }
    if current.repo_dirty != baseline.repo_dirty {
        let mut m = String::new();
        m.append("repo_dirty (baseline=");
        m.append(bool_to_str(baseline.repo_dirty));
        m.append(", current=");
        m.append(bool_to_str(current.repo_dirty));
        m.append(")");
        let ghost before = views_of(mismatches@);
        mismatches.push(m);
        assert(views_of(mismatches@) =~= before.push(
            "repo_dirty (baseline="@ + bool_str(baseline.repo_dirty) + ", current="@ + bool_str(
                current.repo_dirty,
            ) + ")"@,
        ));
    }
    proof {
        assert(views_of(mismatches@) =~= mismatch_list(current, baseline));
    }
    if mismatches.len() > 0 && !force_compare {
        let joined = crate::strutil::join(&mismatches, ", ");
        let mut m = String::new();
        m.append("bench compare blocked due to incompatible context: ");
        m.append(joined.as_str());
        m.append(". Re-run with --force-compare to override.");
        assert(m@ =~= "bench compare blocked due to incompatible context: "@ + join_spec(
            mismatch_list(current, baseline),
            ", "@,
        ) + ". Re-run with --force-compare to override."@);
        return Err(HarnessError::ConfigParse(m));
    }
    Ok(())
}

} // verus!
