//! The bucketing and targeting evaluator.
//!
//! Given a randomization unit and an experiment, the evaluator decides
//! whether this client takes part in the experiment, and on which branch.
//! The verdict depends on nothing but the arguments, and [`spec_verdict`]
//! says exactly what it is.  Targeting compares the experiment's application
//! identifier against the app context; bucketing hashes the randomization
//! unit into the experiment's bucket namespace and selects members whose
//! bucket lands in `[start, start + count)` of `total`; a selected member is
//! assigned a branch in proportion to the branch ratios.

use vstd::prelude::*;
use vstd::string::{StrSliceExecFns, StringExecFns};
use crate::enrollment::{EnrolledReason, EnrollmentStatus, ExperimentEnrollment, NotEnrolledReason, StatusView};
use crate::ids::Uuid;
use crate::strutil::str_eq;
use crate::types::{
    AppContext, AvailableRandomizationUnits, AvailableRandomizationUnitsView, BranchView,
    BucketConfigView, Experiment, ExperimentView, RandomizationUnit,
};

verus! {

/// What the evaluator decided for one experiment.
#[verifier::ext_equal]
pub enum Verdict {
    /// The client is targeted and bucketed; it is assigned this branch.
    Selected { branch: Seq<char> },
    /// The client is targeted but the bucketing did not choose it.
    NotSelected,
    /// The experiment does not target this client.
    NotTargeted,
    /// The verdict could not be computed.
    Failed { reason: Seq<char> },
}

/// One step of the bucketing hash.
pub open spec fn mix(h: u64, b: u64) -> u64 {
    ((((h ^ b) as int) * 0x100000001b3) % 0x10000000000000000) as u64
}

/// The bucketing hash folded over a sequence of characters.
pub open spec fn hash_chars(h: u64, s: Seq<char>) -> u64
    decreases s.len(),
{
    if s.len() == 0 {
        h
    } else {
        hash_chars(mix(h, s[0] as u64), s.skip(1))
    }
}

/// The bucketing hash folded over the two halves of a 128-bit identifier.
pub open spec fn hash_u128(h: u64, bits: u128) -> u64 {
    mix(mix(h, (bits >> 64) as u64), (bits & 0xffffffffffffffff) as u64)
}

/// The seed of the bucketing hash.
pub const HASH_SEED: u64 = 0xcbf29ce484222325;

/// The hash of the client's randomization unit in the experiment's bucket
/// namespace, or `None` when the configured unit is not available.
pub open spec fn spec_unit_hash(
    nimbus_id: u128,
    aru: AvailableRandomizationUnitsView,
    cfg: BucketConfigView,
) -> Option<u64> {
    let h0 = hash_chars(HASH_SEED, cfg.namespace);
    match cfg.randomization_unit {
        RandomizationUnit::NimbusId => Some(hash_u128(h0, nimbus_id)),
        RandomizationUnit::ClientId => match aru.client_id {
            Some(c) => Some(hash_chars(h0, c)),
            None => None,
        },
    }
}

/// The sum of the branch ratios.
pub open spec fn total_ratio(branches: Seq<BranchView>) -> int
    decreases branches.len(),
{
    if branches.len() == 0 {
        0
    } else {
        branches[0].ratio + total_ratio(branches.skip(1))
    }
}

/// The branch at the given point of the ratio line.
pub open spec fn pick_branch(branches: Seq<BranchView>, point: int) -> Seq<char>
    decreases branches.len(),
{
    if branches.len() == 0 {
        Seq::empty()
    } else if point < branches[0].ratio {
        branches[0].slug
    } else {
        pick_branch(branches.skip(1), point - branches[0].ratio)
    }
}

/// A point inside the ratio line always lands on one of the branches.
pub proof fn lemma_pick_branch_is_some_branch(branches: Seq<BranchView>, point: int)
    requires
        0 <= point < total_ratio(branches),
    ensures
        exists|i: int|
            0 <= i < branches.len() && branches[i].slug == pick_branch(branches, point),
    decreases branches.len(),
{
    if branches.len() == 0 {
    } else if point < branches[0].ratio {
        assert(branches[0].slug == pick_branch(branches, point));
    } else {
        lemma_pick_branch_is_some_branch(branches.skip(1), point - branches[0].ratio);
        let j = choose|j: int|
            0 <= j < branches.skip(1).len() && branches.skip(1)[j].slug == pick_branch(
                branches.skip(1),
                point - branches[0].ratio,
            );
        assert(branches[j + 1].slug == pick_branch(branches, point));
    }
}

/// The evaluator's verdict for one experiment.
pub open spec fn spec_verdict(
    nimbus_id: u128,
    aru: AvailableRandomizationUnitsView,
    app_id: Seq<char>,
    exp: ExperimentView,
) -> Verdict {
    if exp.application != app_id {
        Verdict::NotTargeted
    } else {
        match spec_unit_hash(nimbus_id, aru, exp.bucket_config) {
            None => Verdict::Failed { reason: "no available randomization unit"@ },
            Some(h) => {
                let cfg = exp.bucket_config;
                if cfg.total > 0 && cfg.start <= (h as int) % (cfg.total as int) && (h as int) % (
                cfg.total as int) < cfg.start + cfg.count {
                    if total_ratio(exp.branches) > 0 {
                        Verdict::Selected {
                            branch: pick_branch(
                                exp.branches,
                                (h as int) % total_ratio(exp.branches),
                            ),
                        }
                    } else {
                        Verdict::Failed { reason: "no branches to select from"@ }
                    }
                } else {
                    Verdict::NotSelected
                }
            },
        }
    }
}

/// A selected verdict always names one of the experiment's branches.
pub proof fn lemma_selected_branch_exists(
    nimbus_id: u128,
    aru: AvailableRandomizationUnitsView,
    app_id: Seq<char>,
    exp: ExperimentView,
)
    ensures
        spec_verdict(nimbus_id, aru, app_id, exp) matches Verdict::Selected { branch }
            ==> crate::types::spec_has_branch(exp, branch),
{
    if spec_verdict(nimbus_id, aru, app_id, exp) is Selected {
        let h = match spec_unit_hash(nimbus_id, aru, exp.bucket_config) {
            Some(h) => h,
            None => 0,
        };
        let tr = total_ratio(exp.branches);
        vstd::arithmetic::div_mod::lemma_mod_bound(h as int, tr);
        lemma_pick_branch_is_some_branch(exp.branches, (h as int) % tr);
    }
}

/// One step of the bucketing hash.
fn mix_exec(h: u64, b: u64) -> (r: u64)
    ensures
        r == mix(h, b),
{
    let x: u128 = ((h ^ b) as u128) * 0x100000001b3u128;
    proof {
        assert(((h ^ b) as u128) * 0x100000001b3u128 < 0x10000000000000000u128
            * 0x100000001b3u128) by (nonlinear_arith)
            requires
                ((h ^ b) as u128) < 0x10000000000000000u128;
    }
    (x % 0x10000000000000000u128) as u64
}

/// The bucketing hash folded over the characters of a string slice.
fn hash_str(h: u64, s: &str) -> (r: u64)
    ensures
        r == hash_chars(h, s@),
{
    let len = s.unicode_len();
    let mut i: usize = 0;
    let mut acc = h;
    proof {
        assert(s@.skip(0) =~= s@);
    }
    while i < len
        invariant
            len == s@.len(),
            0 <= i <= len,
            hash_chars(h, s@) == hash_chars(acc, s@.skip(i as int)),
        decreases len - i,
    {
        let c = s.get_char(i);
        proof {
            assert(s@.skip(i as int).len() > 0);
            assert(s@.skip(i as int)[0] == s@[i as int]);
            assert(s@.skip(i as int).skip(1) =~= s@.skip(i as int + 1));
        }
        acc = mix_exec(acc, c as u64);
        i += 1;
    }
    proof {
        assert(s@.skip(len as int) =~= Seq::<char>::empty());
    }
    acc
}

/// The bucketing hash folded over the two halves of a 128-bit identifier.
fn hash_u128_exec(h: u64, bits: u128) -> (r: u64)
    ensures
        r == hash_u128(h, bits),
{
    proof {
        assert((bits >> 64u128) <= 0xffffffffffffffffu128) by (bit_vector);
        assert((bits & 0xffffffffffffffffu128) <= 0xffffffffffffffffu128) by (bit_vector);
    }
    let hi: u64 = (bits >> 64u128) as u64;
    let lo: u64 = (bits & 0xffffffffffffffffu128) as u64;
    mix_exec(mix_exec(h, hi), lo)
}

/// The sum of the branch ratios, computed exactly.
fn total_ratio_exec(branches: &Vec<crate::types::Branch>) -> (r: u128)
    ensures
        r == total_ratio(Seq::new(branches@.len(), |i: int| branches@[i]@)),
{
    let ghost bs = Seq::new(branches@.len(), |i: int| branches@[i]@);
    let mut acc: u128 = 0;
    let mut i: usize = 0;
    proof {
        lemma_total_ratio_split(bs, 0);
    }
    while i < branches.len()
        invariant
            bs == Seq::new(branches@.len(), |i: int| branches@[i]@),
            0 <= i <= bs.len(),
            acc == total_ratio(bs.take(i as int)),
            acc <= i * 0x100000000,
        decreases bs.len() - i,
    {
        proof {
            lemma_total_ratio_take_step(bs, i as int);
            assert((i + 1) * 0x100000000 == i * 0x100000000 + 0x100000000) by (nonlinear_arith);
            assert(i * 0x100000000 <= bs.len() * 0x100000000) by (nonlinear_arith)
                requires
                    0 <= i <= bs.len();
        }
        acc = acc + branches[i].ratio as u128;
        i += 1;
    }
    proof {
        assert(bs.take(bs.len() as int) =~= bs);
    }
    acc
}

/// Appending one branch extends the ratio sum by its ratio.
proof fn lemma_total_ratio_take_step(bs: Seq<BranchView>, i: int)
    requires
        0 <= i < bs.len(),
    ensures
        total_ratio(bs.take(i + 1)) == total_ratio(bs.take(i)) + bs[i].ratio,
        total_ratio(bs.take(i)) <= i * 0x100000000,
    decreases bs.len(),
{
    lemma_total_ratio_split(bs.take(i + 1), i);
    assert(bs.take(i + 1).take(i) =~= bs.take(i));
    assert(bs.take(i + 1).skip(i) =~= seq![bs[i]]);
    assert(total_ratio(seq![bs[i]]) == bs[i].ratio + total_ratio(seq![bs[i]].skip(1)));
    assert(seq![bs[i]].skip(1) =~= Seq::<BranchView>::empty());
    lemma_total_ratio_bound(bs.take(i));
}

/// The ratio sum splits across a cut point.
proof fn lemma_total_ratio_split(bs: Seq<BranchView>, i: int)
    requires
        0 <= i <= bs.len(),
    ensures
        total_ratio(bs) == total_ratio(bs.take(i)) + total_ratio(bs.skip(i)),
    decreases i,
{
    if i == 0 {
        assert(bs.take(0) =~= Seq::<BranchView>::empty());
        assert(bs.skip(0) =~= bs);
    } else {
        lemma_total_ratio_split(bs.skip(1), i - 1);
        assert(bs.skip(1).take(i - 1) =~= bs.take(i).skip(1));
        assert(bs.skip(1).skip(i - 1) =~= bs.skip(i));
        assert(total_ratio(bs.take(i)) == bs.take(i)[0].ratio + total_ratio(bs.take(i).skip(1)));
        assert(bs.take(i)[0] == bs[0]);
    }
}

/// Each ratio is below 2^32, so the sum is bounded by the length.
proof fn lemma_total_ratio_bound(bs: Seq<BranchView>)
    ensures
        0 <= total_ratio(bs) <= bs.len() * 0x100000000,
    decreases bs.len(),
{
    if bs.len() == 0 {
    } else {
        lemma_total_ratio_bound(bs.skip(1));
        assert(bs.len() * 0x100000000 == (bs.len() - 1) * 0x100000000 + 0x100000000)
            by (nonlinear_arith);
    }
}

/// The branch at the given point of the ratio line, computed exactly.
fn pick_branch_exec(branches: &Vec<crate::types::Branch>, point: u128) -> (r: String)
    requires
        point < total_ratio(Seq::new(branches@.len(), |i: int| branches@[i]@)),
    ensures
        r@ == pick_branch(Seq::new(branches@.len(), |i: int| branches@[i]@), point as int),
{
    let ghost bs = Seq::new(branches@.len(), |i: int| branches@[i]@);
    let mut i: usize = 0;
    let mut p = point;
    proof {
        assert(bs.skip(0) =~= bs);
    }
    while i < branches.len()
        invariant
            bs == Seq::new(branches@.len(), |i: int| branches@[i]@),
            0 <= i <= bs.len(),
            0 <= p < total_ratio(bs.skip(i as int)),
            pick_branch(bs, point as int) == pick_branch(bs.skip(i as int), p as int),
        decreases bs.len() - i,
    {
        proof {
            assert(bs.skip(i as int)[0] == bs[i as int]);
            assert(bs.skip(i as int).skip(1) =~= bs.skip(i as int + 1));
        }
        if p < branches[i].ratio as u128 {
            return branches[i].slug.clone();
        }
        p = p - branches[i].ratio as u128;
        i += 1;
    }
    proof {
        assert(bs.skip(bs.len() as int) =~= Seq::<BranchView>::empty());
        assert(false);
    }
    String::new()
}

/// Evaluate an experiment against this client: targeting, bucketing, and
/// branch assignment.  The result's status reflects [`spec_verdict`]
/// exactly, with a freshly minted enrollment id when a branch is selected.
pub fn evaluate_enrollment(
    nimbus_id: &Uuid,
    available_randomization_units: &AvailableRandomizationUnits,
    app_context: &AppContext,
    experiment: &Experiment,
) -> (r: ExperimentEnrollment)
    ensures
        r@.slug == experiment@.slug,
        (match spec_verdict(
            nimbus_id.bits,
            available_randomization_units@,
            app_context.app_id@,
            experiment@,
        ) {
            Verdict::Selected { branch } => r@.status matches StatusView::Enrolled {
                reason,
                branch: b,
                ..
            } && reason == EnrolledReason::Qualified && b == branch,
            Verdict::NotSelected => r@.status == StatusView::NotEnrolled {
                reason: NotEnrolledReason::NotSelected,
            },
            Verdict::NotTargeted => r@.status == StatusView::NotEnrolled {
                reason: NotEnrolledReason::NotTargeted,
            },
            Verdict::Failed { reason } => r@.status == StatusView::Error { reason },
        }),
{
    let slug = experiment.slug.clone();
    if !str_eq(experiment.application.as_str(), app_context.app_id.as_str()) {
        return ExperimentEnrollment {
            slug,
            status: EnrollmentStatus::NotEnrolled { reason: NotEnrolledReason::NotTargeted },
        };
    }
    let cfg = &experiment.bucket_config;
    let h0 = hash_str(HASH_SEED, cfg.namespace.as_str());
    let h: u64 = match cfg.randomization_unit {
        RandomizationUnit::NimbusId => hash_u128_exec(h0, nimbus_id.bits),
        RandomizationUnit::ClientId => match &available_randomization_units.client_id {
            Some(c) => hash_str(h0, c.as_str()),
            None => {
                return ExperimentEnrollment {
                    slug,
                    status: EnrollmentStatus::Error {
                        reason: String::from_str("no available randomization unit"),
                    },
                };
            },
        },
    };
    if cfg.total > 0 {
        let bucket: u64 = h % (cfg.total as u64);
        if cfg.start as u64 <= bucket && bucket < cfg.start as u64 + cfg.count as u64 {
            let tr = total_ratio_exec(&experiment.branches);
            if tr > 0 {
                let point: u128 = (h as u128) % tr;
                let branch = pick_branch_exec(&experiment.branches, point);
                return ExperimentEnrollment {
                    slug,
                    status: EnrollmentStatus::Enrolled {
                        enrollment_id: Uuid::new_v4(),
                        reason: EnrolledReason::Qualified,
                        branch,
                    },
                };
            } else {
                return ExperimentEnrollment {
                    slug,
                    status: EnrollmentStatus::Error {
                        reason: String::from_str("no branches to select from"),
                    },
                };
            }
        }
    }
    ExperimentEnrollment {
        slug,
        status: EnrollmentStatus::NotEnrolled { reason: NotEnrolledReason::NotSelected },
    }
}

} // verus!
