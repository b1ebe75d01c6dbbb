//! The experiment data model and the spec-level views of its types.
//!
//! Only the fields that the enrollment engine consumes are modelled: the
//! slug (the stable primary key), the branches with their ratios, the
//! enrollment-pause flag, the bucketing configuration, the application
//! identifier used for targeting, and the user-facing name and description
//! surfaced by the read API.

use vstd::prelude::*;
use crate::strutil::str_eq;

verus! {

/// Which identifier the bucketing hash is computed from.
#[derive(Clone, Copy, PartialEq, Eq, Structural, Debug)]
pub enum RandomizationUnit {
    NimbusId,
    ClientId,
}

/// The identifiers available on this client for bucketing.
pub struct AvailableRandomizationUnits {
    pub client_id: Option<String>,
}

/// The application context the client evaluates targeting against.
pub struct AppContext {
    pub app_id: String,
}

/// One treatment arm of an experiment.
pub struct Branch {
    pub slug: String,
    pub ratio: u32,
}

/// The bucketing configuration of an experiment: members whose hash lands
/// in `[start, start + count)` of `total` buckets are selected.
pub struct BucketConfig {
    pub randomization_unit: RandomizationUnit,
    pub namespace: String,
    pub start: u32,
    pub count: u32,
    pub total: u32,
}

/// An experiment as the engine sees it.
pub struct Experiment {
    pub slug: String,
    pub application: String,
    pub branches: Vec<Branch>,
    pub bucket_config: BucketConfig,
    pub is_enrollment_paused: bool,
    pub user_facing_name: String,
    pub user_facing_description: String,
}

/// Spec view of [`AvailableRandomizationUnits`].
#[verifier::ext_equal]
pub struct AvailableRandomizationUnitsView {
    pub client_id: Option<Seq<char>>,
}

/// Spec view of [`Branch`].
#[verifier::ext_equal]
pub struct BranchView {
    pub slug: Seq<char>,
    pub ratio: u32,
}

/// Spec view of [`BucketConfig`].
#[verifier::ext_equal]
pub struct BucketConfigView {
    pub randomization_unit: RandomizationUnit,
    pub namespace: Seq<char>,
    pub start: u32,
    pub count: u32,
    pub total: u32,
}

/// Spec view of [`Experiment`].
#[verifier::ext_equal]
pub struct ExperimentView {
    pub slug: Seq<char>,
    pub application: Seq<char>,
    pub branches: Seq<BranchView>,
    pub bucket_config: BucketConfigView,
    pub is_enrollment_paused: bool,
    pub user_facing_name: Seq<char>,
    pub user_facing_description: Seq<char>,
}

impl View for AvailableRandomizationUnits {
    type V = AvailableRandomizationUnitsView;

    open spec fn view(&self) -> AvailableRandomizationUnitsView {
        AvailableRandomizationUnitsView {
            client_id: match self.client_id {
                Some(c) => Some(c@),
                None => None,
            },
        }
    }
}

impl View for Branch {
    type V = BranchView;

    open spec fn view(&self) -> BranchView {
        BranchView { slug: self.slug@, ratio: self.ratio }
    }
}

impl View for BucketConfig {
    type V = BucketConfigView;

    open spec fn view(&self) -> BucketConfigView {
        BucketConfigView {
            randomization_unit: self.randomization_unit,
            namespace: self.namespace@,
            start: self.start,
            count: self.count,
            total: self.total,
        }
    }
}

impl View for Experiment {
    type V = ExperimentView;

    open spec fn view(&self) -> ExperimentView {
        ExperimentView {
            slug: self.slug@,
            application: self.application@,
            branches: Seq::new(self.branches@.len(), |i: int| self.branches@[i]@),
            bucket_config: self.bucket_config@,
            is_enrollment_paused: self.is_enrollment_paused,
            user_facing_name: self.user_facing_name@,
            user_facing_description: self.user_facing_description@,
        }
    }
}

impl Default for AvailableRandomizationUnits {
    /// No identifiers beyond the built-in one are available by default.
    fn default() -> (r: Self)
        ensures
            r@.client_id is None,
    {
        AvailableRandomizationUnits { client_id: None }
    }
}

impl Clone for Branch {
    fn clone(&self) -> (r: Self)
        ensures
            r@ == self@,
    {
        Branch { slug: self.slug.clone(), ratio: self.ratio }
    }
}

impl Clone for BucketConfig {
    fn clone(&self) -> (r: Self)
        ensures
            r@ == self@,
    {
        BucketConfig {
            randomization_unit: self.randomization_unit,
            namespace: self.namespace.clone(),
            start: self.start,
            count: self.count,
            total: self.total,
        }
    }
}

impl Clone for Experiment {
    fn clone(&self) -> (r: Self)
        ensures
            r@ == self@,
    {
        let mut branches: Vec<Branch> = Vec::new();
        let mut i: usize = 0;
        while i < self.branches.len()
            invariant
                0 <= i <= self.branches@.len(),
                branches@.len() == i,
                forall|k: int| 0 <= k < i ==> branches@[k]@ == self.branches@[k]@,
            decreases self.branches@.len() - i,
        {
            branches.push(self.branches[i].clone());
            i += 1;
        }
        let r = Experiment {
            slug: self.slug.clone(),
            application: self.application.clone(),
            branches,
            bucket_config: self.bucket_config.clone(),
            is_enrollment_paused: self.is_enrollment_paused,
            user_facing_name: self.user_facing_name.clone(),
            user_facing_description: self.user_facing_description.clone(),
        };
        proof {
            assert(r@.branches =~= self@.branches);
            assert(r@ =~= self@);
        }
        r
    }
}

/// Whether some branch of `exp` has the given slug.
pub open spec fn spec_has_branch(exp: ExperimentView, branch_slug: Seq<char>) -> bool {
    exists|i: int| 0 <= i < exp.branches.len() && exp.branches[i].slug == branch_slug
}

impl Experiment {
    /// Whether this experiment has a branch with the given slug.
    pub fn has_branch(&self, branch_slug: &str) -> (r: bool)
        ensures
            r == spec_has_branch(self@, branch_slug@),
    {
        let mut i: usize = 0;
        while i < self.branches.len()
            invariant
                0 <= i <= self.branches@.len(),
                forall|k: int| 0 <= k < i ==> self@.branches[k].slug != branch_slug@,
            decreases self.branches@.len() - i,
        {
            if str_eq(self.branches[i].slug.as_str(), branch_slug) {
                assert(self@.branches[i as int].slug == branch_slug@);
                return true;
            }
            i += 1;
        }
        false
    }
}

} // verus!
