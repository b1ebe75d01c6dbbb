//! Enrollment records, change events, and the enrollment state machine.
//!
//! Every experiment slug a client has ever seen owns one
//! [`ExperimentEnrollment`] record.  The record is mutated only by the pure
//! transition functions in this module, each of which is specified exactly by
//! a companion spec function over the record views.  A transition appends at
//! most one change event to the caller-supplied accumulator.

use vstd::prelude::*;
use vstd::string::StringExecFns;
use crate::evaluator::{evaluate_enrollment, spec_verdict, Verdict};
use crate::errors::NimbusError;
use crate::ids::{uuid_text, Uuid};
use crate::types::{
    spec_has_branch, AppContext, AvailableRandomizationUnits, Experiment, ExperimentView,
};

verus! {

/// Seconds a `WasEnrolled` record is kept after its experiment ended.
pub const PREVIOUS_ENROLLMENTS_GC_TIME: u64 = 30 * 24 * 3600;

/// Why a client is enrolled in an experiment.
#[derive(Clone, Copy, PartialEq, Eq, Structural, Debug, Hash)]
pub enum EnrolledReason {
    /// A normal enrollment as per the experiment's rules.
    Qualified,
    /// Explicit opt-in.
    OptIn,
}

/// Why a client is not enrolled in an experiment.
#[derive(Clone, Copy, PartialEq, Eq, Structural, Debug, Hash)]
pub enum NotEnrolledReason {
    /// The user opted out of experiments before enrollment was considered.
    OptOut,
    /// The bucketing did not choose this client.
    NotSelected,
    /// This client is not targeted by the experiment.
    NotTargeted,
    /// The experiment's enrollment is paused.
    EnrollmentsPaused,
}

/// Why a client was disqualified from an experiment it was enrolled in.
#[derive(Clone, Copy, PartialEq, Eq, Structural, Debug, Hash)]
pub enum DisqualifiedReason {
    /// There was an error.
    Error,
    /// The user opted out of this experiment or of experiments in general.
    OptOut,
    /// The targeting has changed for the experiment.
    NotTargeted,
}

/// A client's relationship to one experiment.
#[derive(Debug, PartialEq)]
pub enum EnrollmentStatus {
    Enrolled {
        /// Random identifier used to correlate telemetry events.  Assigned
        /// exactly once, at the transition into `Enrolled`, and preserved
        /// verbatim across transitions to `Disqualified` and `WasEnrolled`.
        enrollment_id: Uuid,
        reason: EnrolledReason,
        branch: String,
    },
    NotEnrolled {
        reason: NotEnrolledReason,
    },
    Disqualified {
        enrollment_id: Uuid,
        reason: DisqualifiedReason,
        branch: String,
    },
    WasEnrolled {
        enrollment_id: Uuid,
        branch: String,
        /// Unix timestamp in seconds, used to garbage-collect the record.
        experiment_ended_at: u64,
    },
    /// There was some error enrolling; terminal for this record.
    Error {
        reason: String,
    },
}

/// Spec view of [`EnrollmentStatus`].
#[verifier::ext_equal]
pub enum StatusView {
    Enrolled { id: u128, reason: EnrolledReason, branch: Seq<char> },
    NotEnrolled { reason: NotEnrolledReason },
    Disqualified { id: u128, reason: DisqualifiedReason, branch: Seq<char> },
    WasEnrolled { id: u128, branch: Seq<char>, ended_at: u64 },
    Error { reason: Seq<char> },
}

impl View for EnrollmentStatus {
    type V = StatusView;

    open spec fn view(&self) -> StatusView {
        match self {
            EnrollmentStatus::Enrolled { enrollment_id, reason, branch } => StatusView::Enrolled {
                id: enrollment_id.bits,
                reason: *reason,
                branch: branch@,
            },
            EnrollmentStatus::NotEnrolled { reason } => StatusView::NotEnrolled { reason: *reason },
            EnrollmentStatus::Disqualified { enrollment_id, reason, branch } => {
                StatusView::Disqualified {
                    id: enrollment_id.bits,
                    reason: *reason,
                    branch: branch@,
                }
            },
            EnrollmentStatus::WasEnrolled { enrollment_id, branch, experiment_ended_at } => {
                StatusView::WasEnrolled {
                    id: enrollment_id.bits,
                    branch: branch@,
                    ended_at: *experiment_ended_at,
                }
            },
            EnrollmentStatus::Error { reason } => StatusView::Error { reason: reason@ },
        }
    }
}

impl Clone for EnrollmentStatus {
    fn clone(&self) -> (r: Self)
        ensures
            r@ == self@,
    {
        match self {
            EnrollmentStatus::Enrolled { enrollment_id, reason, branch } => {
                EnrollmentStatus::Enrolled {
                    enrollment_id: *enrollment_id,
                    reason: *reason,
                    branch: branch.clone(),
                }
            },
            EnrollmentStatus::NotEnrolled { reason } => EnrollmentStatus::NotEnrolled {
                reason: *reason,
            },
            EnrollmentStatus::Disqualified { enrollment_id, reason, branch } => {
                EnrollmentStatus::Disqualified {
                    enrollment_id: *enrollment_id,
                    reason: *reason,
                    branch: branch.clone(),
                }
            },
            EnrollmentStatus::WasEnrolled { enrollment_id, branch, experiment_ended_at } => {
                EnrollmentStatus::WasEnrolled {
                    enrollment_id: *enrollment_id,
                    branch: branch.clone(),
                    experiment_ended_at: *experiment_ended_at,
                }
            },
            EnrollmentStatus::Error { reason } => EnrollmentStatus::Error {
                reason: reason.clone(),
            },
        }
    }
}

impl EnrollmentStatus {
    /// A fresh `Enrolled` status with a newly minted random enrollment id.
    pub fn new_enrolled(reason: EnrolledReason, branch: &str) -> (r: Self)
        ensures
            r@ matches StatusView::Enrolled { id, reason: rr, branch: b } && rr == reason && b
                == branch@,
    {
        EnrollmentStatus::Enrolled {
            reason,
            branch: branch.to_owned(),
            enrollment_id: Uuid::new_v4(),
        }
    }

    /// Whether this status is `Enrolled`.
    pub fn is_enrolled(&self) -> (r: bool)
        ensures
            r == self@ is Enrolled,
    {
        match self {
            EnrollmentStatus::Enrolled { .. } => true,
            _ => false,
        }
    }
}

/// The persistent enrollment record for one experiment slug.
#[derive(Debug, PartialEq)]
pub struct ExperimentEnrollment {
    pub slug: String,
    pub status: EnrollmentStatus,
}

/// Spec view of [`ExperimentEnrollment`].
#[verifier::ext_equal]
pub struct EnrollmentView {
    pub slug: Seq<char>,
    pub status: StatusView,
}

impl View for ExperimentEnrollment {
    type V = EnrollmentView;

    open spec fn view(&self) -> EnrollmentView {
        EnrollmentView { slug: self.slug@, status: self.status@ }
    }
}

impl Clone for ExperimentEnrollment {
    fn clone(&self) -> (r: Self)
        ensures
            r@ == self@,
    {
        ExperimentEnrollment { slug: self.slug.clone(), status: self.status.clone() }
    }
}

/// The kind of change a telemetry event reports.
#[derive(Clone, Copy, PartialEq, Eq, Structural, Debug)]
pub enum EnrollmentChangeEventType {
    Enrollment,
    Disqualification,
    Unenrollment,
}

/// A telemetry event describing one enrollment status transition.
#[derive(Debug, PartialEq)]
pub struct EnrollmentChangeEvent {
    pub experiment_slug: String,
    pub branch_slug: String,
    /// The enrollment id in its hyphenated text form.
    pub enrollment_id: String,
    /// Populated only on disqualification: `"optout"`, `"targeting"` or
    /// `"error"`.
    pub reason: Option<String>,
    pub change: EnrollmentChangeEventType,
}

/// Spec view of [`EnrollmentChangeEvent`].
#[verifier::ext_equal]
pub struct EventView {
    pub experiment_slug: Seq<char>,
    pub branch_slug: Seq<char>,
    pub enrollment_id: Seq<char>,
    pub reason: Option<Seq<char>>,
    pub change: EnrollmentChangeEventType,
}

impl View for EnrollmentChangeEvent {
    type V = EventView;

    open spec fn view(&self) -> EventView {
        EventView {
            experiment_slug: self.experiment_slug@,
            branch_slug: self.branch_slug@,
            enrollment_id: self.enrollment_id@,
            reason: match self.reason {
                Some(r) => Some(r@),
                None => None,
            },
            change: self.change,
        }
    }
}

impl EnrollmentChangeEvent {
    /// Assemble an event from its parts.
    pub fn new(
        slug: &str,
        enrollment_id: &Uuid,
        branch: &str,
        reason: Option<&str>,
        change: EnrollmentChangeEventType,
    ) -> (ev: Self)
        ensures
            ev@ == (EventView {
                experiment_slug: slug@,
                branch_slug: branch@,
                enrollment_id: uuid_text(enrollment_id.bits),
                reason: match reason {
                    Some(r) => Some(r@),
                    None => None,
                },
                change,
            }),
    {
        EnrollmentChangeEvent {
            experiment_slug: slug.to_owned(),
            branch_slug: branch.to_owned(),
            enrollment_id: enrollment_id.hyphenated(),
            reason: match reason {
                Some(r) => Some(r.to_owned()),
                None => None,
            },
            change,
        }
    }
}

/// The views of a sequence of events.
pub open spec fn events_views(s: Seq<EnrollmentChangeEvent>) -> Seq<EventView> {
    s.map_values(|e: EnrollmentChangeEvent| e@)
}

/// The reason string carried by a disqualification event.
pub open spec fn disqualified_reason_text(reason: DisqualifiedReason) -> Seq<char> {
    match reason {
        DisqualifiedReason::NotTargeted => "targeting"@,
        DisqualifiedReason::OptOut => "optout"@,
        DisqualifiedReason::Error => "error"@,
    }
}

/// Whether a record in this status describes a transition that is reported
/// by a telemetry event.
pub open spec fn is_eventful(s: StatusView) -> bool {
    s is Enrolled || s is Disqualified || s is WasEnrolled
}

/// The telemetry event describing the transition into the given record.
pub open spec fn spec_change_event(e: EnrollmentView) -> EventView
    recommends
        is_eventful(e.status),
{
    match e.status {
        StatusView::Enrolled { id, branch, .. } => EventView {
            experiment_slug: e.slug,
            branch_slug: branch,
            enrollment_id: uuid_text(id),
            reason: None,
            change: EnrollmentChangeEventType::Enrollment,
        },
        StatusView::WasEnrolled { id, branch, .. } => EventView {
            experiment_slug: e.slug,
            branch_slug: branch,
            enrollment_id: uuid_text(id),
            reason: None,
            change: EnrollmentChangeEventType::Unenrollment,
        },
        StatusView::Disqualified { id, reason, branch } => EventView {
            experiment_slug: e.slug,
            branch_slug: branch,
            enrollment_id: uuid_text(id),
            reason: Some(disqualified_reason_text(reason)),
            change: EnrollmentChangeEventType::Disqualification,
        },
        _ => EventView {
            experiment_slug: e.slug,
            branch_slug: Seq::empty(),
            enrollment_id: Seq::empty(),
            reason: None,
            change: EnrollmentChangeEventType::Enrollment,
        },
    }
}

/// The record produced by reflecting an evaluator verdict, with `fresh` as
/// the enrollment id should the verdict select a branch.
pub open spec fn spec_eval_record(exp: ExperimentView, v: Verdict, fresh: u128) -> EnrollmentView {
    EnrollmentView {
        slug: exp.slug,
        status: match v {
            Verdict::Selected { branch } => StatusView::Enrolled {
                id: fresh,
                reason: EnrolledReason::Qualified,
                branch,
            },
            Verdict::NotSelected => StatusView::NotEnrolled {
                reason: NotEnrolledReason::NotSelected,
            },
            Verdict::NotTargeted => StatusView::NotEnrolled {
                reason: NotEnrolledReason::NotTargeted,
            },
            Verdict::Failed { reason } => StatusView::Error { reason },
        },
    }
}

/// The record produced for an experiment slug seen for the first time.
pub open spec fn spec_from_new(
    part: bool,
    exp: ExperimentView,
    v: Verdict,
    fresh: u128,
) -> EnrollmentView {
    if !part {
        EnrollmentView {
            slug: exp.slug,
            status: StatusView::NotEnrolled { reason: NotEnrolledReason::OptOut },
        }
    } else if exp.is_enrollment_paused {
        EnrollmentView {
            slug: exp.slug,
            status: StatusView::NotEnrolled { reason: NotEnrolledReason::EnrollmentsPaused },
        }
    } else {
        spec_eval_record(exp, v, fresh)
    }
}

/// Whether seeing a new experiment emits an event.
pub open spec fn spec_from_new_emits(part: bool, exp: ExperimentView, v: Verdict) -> bool {
    part && !exp.is_enrollment_paused && v is Selected
}

/// The events appended when a new experiment slug is seen.
pub open spec fn spec_from_new_events(
    part: bool,
    exp: ExperimentView,
    v: Verdict,
    fresh: u128,
) -> Seq<EventView> {
    if spec_from_new_emits(part, exp, v) {
        seq![spec_change_event(spec_from_new(part, exp, v, fresh))]
    } else {
        Seq::empty()
    }
}

/// The record produced by updating a prior record against the latest state
/// of its experiment, with `v` the evaluator verdict for that experiment.
pub open spec fn spec_on_updated(
    prior: EnrollmentView,
    part: bool,
    exp: ExperimentView,
    v: Verdict,
    fresh: u128,
) -> EnrollmentView {
    match prior.status {
        StatusView::NotEnrolled { .. } => {
            if !part || exp.is_enrollment_paused {
                prior
            } else {
                spec_eval_record(exp, v, fresh)
            }
        },
        StatusView::Enrolled { id, branch, .. } => {
            if !part {
                EnrollmentView {
                    slug: prior.slug,
                    status: StatusView::Disqualified {
                        id,
                        reason: DisqualifiedReason::OptOut,
                        branch,
                    },
                }
            } else if !spec_has_branch(exp, branch) {
                EnrollmentView {
                    slug: prior.slug,
                    status: StatusView::Disqualified {
                        id,
                        reason: DisqualifiedReason::Error,
                        branch,
                    },
                }
            } else {
                match v {
                    Verdict::Failed { .. } => EnrollmentView {
                        slug: prior.slug,
                        status: StatusView::Disqualified {
                            id,
                            reason: DisqualifiedReason::Error,
                            branch,
                        },
                    },
                    Verdict::NotTargeted => EnrollmentView {
                        slug: prior.slug,
                        status: StatusView::Disqualified {
                            id,
                            reason: DisqualifiedReason::NotTargeted,
                            branch,
                        },
                    },
                    _ => prior,
                }
            }
        },
        StatusView::Disqualified { id, branch, .. } => {
            if !part {
                EnrollmentView {
                    slug: prior.slug,
                    status: StatusView::Disqualified {
                        id,
                        reason: DisqualifiedReason::OptOut,
                        branch,
                    },
                }
            } else {
                prior
            }
        },
        StatusView::WasEnrolled { .. } => prior,
        StatusView::Error { .. } => prior,
    }
}

/// Whether updating a prior record emits an event.
pub open spec fn spec_on_updated_emits(
    prior: EnrollmentView,
    part: bool,
    exp: ExperimentView,
    v: Verdict,
) -> bool {
    match prior.status {
        StatusView::NotEnrolled { .. } => part && !exp.is_enrollment_paused && v is Selected,
        StatusView::Enrolled { branch, .. } => !part || !spec_has_branch(exp, branch) || v
            is Failed || v is NotTargeted,
        _ => false,
    }
}

/// The events appended when a prior record is updated.
pub open spec fn spec_on_updated_events(
    prior: EnrollmentView,
    part: bool,
    exp: ExperimentView,
    v: Verdict,
    fresh: u128,
) -> Seq<EventView> {
    if spec_on_updated_emits(prior, part, exp, v) {
        seq![spec_change_event(spec_on_updated(prior, part, exp, v, fresh))]
    } else {
        Seq::empty()
    }
}

/// The record (if any) kept after the record's experiment vanished from the
/// server, with `now` the current time in unix seconds.
pub open spec fn spec_on_ended(prior: EnrollmentView, now: u64) -> Option<EnrollmentView> {
    match prior.status {
        StatusView::Enrolled { id, branch, .. } => Some(
            EnrollmentView {
                slug: prior.slug,
                status: StatusView::WasEnrolled { id, branch, ended_at: now },
            },
        ),
        StatusView::Disqualified { id, branch, .. } => Some(
            EnrollmentView {
                slug: prior.slug,
                status: StatusView::WasEnrolled { id, branch, ended_at: now },
            },
        ),
        _ => None,
    }
}

/// Whether ending an experiment emits an event for this record.
pub open spec fn spec_on_ended_emits(prior: EnrollmentView) -> bool {
    prior.status is Enrolled || prior.status is Disqualified
}

/// The events appended when the record's experiment ended.
pub open spec fn spec_on_ended_events(prior: EnrollmentView, now: u64) -> Seq<EventView> {
    if spec_on_ended_emits(prior) {
        seq![
            spec_change_event(
                match spec_on_ended(prior, now) {
                    Some(e) => e,
                    None => prior,
                },
            ),
        ]
    } else {
        Seq::empty()
    }
}

/// The record produced by an explicit opt-out.
pub open spec fn spec_opt_out(prior: EnrollmentView) -> EnrollmentView {
    match prior.status {
        StatusView::Enrolled { id, branch, .. } => EnrollmentView {
            slug: prior.slug,
            status: StatusView::Disqualified { id, reason: DisqualifiedReason::OptOut, branch },
        },
        StatusView::NotEnrolled { .. } => EnrollmentView {
            slug: prior.slug,
            status: StatusView::NotEnrolled { reason: NotEnrolledReason::OptOut },
        },
        _ => prior,
    }
}

/// Whether an explicit opt-out emits an event.
pub open spec fn spec_opt_out_emits(prior: EnrollmentView) -> bool {
    prior.status is Enrolled
}

/// The events appended by an explicit opt-out.
pub open spec fn spec_opt_out_events(prior: EnrollmentView) -> Seq<EventView> {
    if spec_opt_out_emits(prior) {
        seq![spec_change_event(spec_opt_out(prior))]
    } else {
        Seq::empty()
    }
}

/// The record produced by an explicit opt-in to the given branch, with
/// `fresh` as the new enrollment id.
pub open spec fn spec_opt_in(
    exp: ExperimentView,
    branch_slug: Seq<char>,
    fresh: u128,
) -> EnrollmentView {
    EnrollmentView {
        slug: exp.slug,
        status: StatusView::Enrolled { id: fresh, reason: EnrolledReason::OptIn, branch: branch_slug },
    }
}

/// The record (if any) kept by garbage collection when both the experiment
/// and the update are absent for this record's slug.
pub open spec fn spec_gc(prior: EnrollmentView, now: u64) -> Option<EnrollmentView> {
    if prior.status matches StatusView::WasEnrolled { ended_at, .. } && now - ended_at
        < PREVIOUS_ENROLLMENTS_GC_TIME {
        Some(prior)
    } else {
        None
    }
}

/// Pushing an event extends the sequence of event views by its view.
pub proof fn lemma_events_push(s: Seq<EnrollmentChangeEvent>, e: EnrollmentChangeEvent)
    ensures
        events_views(s.push(e)) =~= events_views(s).push(e@),
        events_views(s) + seq![e@] =~= events_views(s).push(e@),
{
}

/// Appending no event leaves the sequence of event views unchanged.
pub proof fn lemma_events_same(s: Seq<EnrollmentChangeEvent>)
    ensures
        events_views(s) + Seq::<EventView>::empty() =~= events_views(s),
{
}

impl ExperimentEnrollment {
    /// The enrollment record for an experiment slug seen for the first time.
    pub fn from_new_experiment(
        is_user_participating: bool,
        nimbus_id: &Uuid,
        available_randomization_units: &AvailableRandomizationUnits,
        app_context: &AppContext,
        experiment: &Experiment,
        out_enrollment_events: &mut Vec<EnrollmentChangeEvent>,
    ) -> (r: Self)
        ensures
            ({
                let v = spec_verdict(
                    nimbus_id.bits,
                    available_randomization_units@,
                    app_context.app_id@,
                    experiment@,
                );
                exists|fresh: u128|
                    #![auto]
                    r@ == spec_from_new(is_user_participating, experiment@, v, fresh)
                        && events_views(final(out_enrollment_events)@) == events_views(
                        old(out_enrollment_events)@,
                    ) + spec_from_new_events(is_user_participating, experiment@, v, fresh)
            }),
    {
        let ghost v = spec_verdict(
            nimbus_id.bits,
            available_randomization_units@,
            app_context.app_id@,
            experiment@,
        );
        if !is_user_participating {
            let r = Self {
                slug: experiment.slug.clone(),
                status: EnrollmentStatus::NotEnrolled { reason: NotEnrolledReason::OptOut },
            };
            proof {
                lemma_events_same(out_enrollment_events@);
                assert(r@ == spec_from_new(is_user_participating, experiment@, v, 0));
            }
            r
        } else if experiment.is_enrollment_paused {
            let r = Self {
                slug: experiment.slug.clone(),
                status: EnrollmentStatus::NotEnrolled {
                    reason: NotEnrolledReason::EnrollmentsPaused,
                },
            };
            proof {
                lemma_events_same(out_enrollment_events@);
                assert(r@ == spec_from_new(is_user_participating, experiment@, v, 0));
            }
            r
        } else {
            let enrollment = evaluate_enrollment(
                nimbus_id,
                available_randomization_units,
                app_context,
                experiment,
            );
            let ghost fresh: u128 = match enrollment@.status {
                StatusView::Enrolled { id, .. } => id,
                _ => 0,
            };
            proof {
                assert(enrollment@ == spec_from_new(is_user_participating, experiment@, v, fresh));
            }
            if enrollment.status.is_enrolled() {
                let ev = enrollment.get_change_event();
                proof {
                    lemma_events_push(out_enrollment_events@, ev);
                }
                out_enrollment_events.push(ev);
            } else {
                proof {
                    lemma_events_same(out_enrollment_events@);
                }
            }
            enrollment
        }
    }

    /// The enrollment record for an explicit opt-in to a branch of the
    /// experiment.  Fails with `NoSuchBranch` when the experiment has no
    /// branch with the given slug; otherwise it enrolls with a fresh id and
    /// emits an enrollment event.
    pub fn from_explicit_opt_in(
        experiment: &Experiment,
        branch_slug: &str,
        out_enrollment_events: &mut Vec<EnrollmentChangeEvent>,
    ) -> (r: Result<Self, NimbusError>)
        ensures
            r is Ok <==> spec_has_branch(experiment@, branch_slug@),
            r matches Ok(e) ==> exists|fresh: u128|
                #![auto]
                e@ == spec_opt_in(experiment@, branch_slug@, fresh) && events_views(
                    final(out_enrollment_events)@,
                ) == events_views(old(out_enrollment_events)@) + seq![
                    spec_change_event(spec_opt_in(experiment@, branch_slug@, fresh)),
                ],
            r matches Err(err) ==> (final(out_enrollment_events)@ == old(out_enrollment_events)@
                && (err matches NimbusError::NoSuchBranch(b, s) && b@ == branch_slug@ && s@
                == experiment@.slug)),
    {
        if !experiment.has_branch(branch_slug) {
            return Err(
                NimbusError::NoSuchBranch(branch_slug.to_owned(), experiment.slug.clone()),
            );
        }
        let enrollment = Self {
            slug: experiment.slug.clone(),
            status: EnrollmentStatus::new_enrolled(EnrolledReason::OptIn, branch_slug),
        };
        let ghost fresh: u128 = match enrollment@.status {
            StatusView::Enrolled { id, .. } => id,
            _ => 0,
        };
        let ev = enrollment.get_change_event();
        proof {
            lemma_events_push(out_enrollment_events@, ev);
            assert(enrollment@ == spec_opt_in(experiment@, branch_slug@, fresh));
        }
        out_enrollment_events.push(ev);
        Ok(enrollment)
    }

    /// Update this record against the latest state of an experiment seen
    /// before.
    pub fn on_experiment_updated(
        &self,
        is_user_participating: bool,
        nimbus_id: &Uuid,
        available_randomization_units: &AvailableRandomizationUnits,
        app_context: &AppContext,
        updated_experiment: &Experiment,
        out_enrollment_events: &mut Vec<EnrollmentChangeEvent>,
    ) -> (r: Self)
        ensures
            ({
                let v = spec_verdict(
                    nimbus_id.bits,
                    available_randomization_units@,
                    app_context.app_id@,
                    updated_experiment@,
                );
                exists|fresh: u128|
                    #![auto]
                    r@ == spec_on_updated(
                        self@,
                        is_user_participating,
                        updated_experiment@,
                        v,
                        fresh,
                    ) && events_views(final(out_enrollment_events)@) == events_views(
                        old(out_enrollment_events)@,
                    ) + spec_on_updated_events(
                        self@,
                        is_user_participating,
                        updated_experiment@,
                        v,
                        fresh,
                    )
            }),
    {
        let ghost v = spec_verdict(
            nimbus_id.bits,
            available_randomization_units@,
            app_context.app_id@,
            updated_experiment@,
        );
        let r = match &self.status {
            EnrollmentStatus::NotEnrolled { .. } => {
                if !is_user_participating || updated_experiment.is_enrollment_paused {
                    proof {
                        lemma_events_same(out_enrollment_events@);
                    }
                    self.clone()
                } else {
                    let updated_enrollment = evaluate_enrollment(
                        nimbus_id,
                        available_randomization_units,
                        app_context,
                        updated_experiment,
                    );
                    let ghost fresh: u128 = match updated_enrollment@.status {
                        StatusView::Enrolled { id, .. } => id,
                        _ => 0,
                    };
                    proof {
                        assert(updated_enrollment@ == spec_on_updated(
                            self@,
                            is_user_participating,
                            updated_experiment@,
                            v,
                            fresh,
                        ));
                    }
                    if updated_enrollment.status.is_enrolled() {
                        let ev = updated_enrollment.get_change_event();
                        proof {
                            lemma_events_push(out_enrollment_events@, ev);
                        }
                        out_enrollment_events.push(ev);
                    } else {
                        proof {
                            lemma_events_same(out_enrollment_events@);
                        }
                    }
                    updated_enrollment
                }
            },
            EnrollmentStatus::Enrolled { enrollment_id, branch, .. } => {
                if !is_user_participating {
                    let updated_enrollment = Self {
                        slug: self.slug.clone(),
                        status: EnrollmentStatus::Disqualified {
                            reason: DisqualifiedReason::OptOut,
                            enrollment_id: *enrollment_id,
                            branch: branch.clone(),
                        },
                    };
                    let ev = updated_enrollment.get_change_event();
                    proof {
                        lemma_events_push(out_enrollment_events@, ev);
                    }
                    out_enrollment_events.push(ev);
                    updated_enrollment
                } else if !updated_experiment.has_branch(branch.as_str()) {
                    // The branch this client was in disappeared.
                    let updated_enrollment = Self {
                        slug: self.slug.clone(),
                        status: EnrollmentStatus::Disqualified {
                            reason: DisqualifiedReason::Error,
                            enrollment_id: *enrollment_id,
                            branch: branch.clone(),
                        },
                    };
                    let ev = updated_enrollment.get_change_event();
                    proof {
                        lemma_events_push(out_enrollment_events@, ev);
                    }
                    out_enrollment_events.push(ev);
                    updated_enrollment
                } else {
                    let evaluated_enrollment = evaluate_enrollment(
                        nimbus_id,
                        available_randomization_units,
                        app_context,
                        updated_experiment,
                    );
                    match &evaluated_enrollment.status {
                        EnrollmentStatus::Error { .. } => {
                            let updated_enrollment = Self {
                                slug: self.slug.clone(),
                                status: EnrollmentStatus::Disqualified {
                                    reason: DisqualifiedReason::Error,
                                    enrollment_id: *enrollment_id,
                                    branch: branch.clone(),
                                },
                            };
                            let ev = updated_enrollment.get_change_event();
                            proof {
                                lemma_events_push(out_enrollment_events@, ev);
                            }
                            out_enrollment_events.push(ev);
                            updated_enrollment
                        },
                        EnrollmentStatus::NotEnrolled {
                            reason: NotEnrolledReason::NotTargeted,
                        } => {
                            let updated_enrollment = Self {
                                slug: self.slug.clone(),
                                status: EnrollmentStatus::Disqualified {
                                    reason: DisqualifiedReason::NotTargeted,
                                    enrollment_id: *enrollment_id,
                                    branch: branch.clone(),
                                },
                            };
                            let ev = updated_enrollment.get_change_event();
                            proof {
                                lemma_events_push(out_enrollment_events@, ev);
                            }
                            out_enrollment_events.push(ev);
                            updated_enrollment
                        },
                        _ => {
                            // Stay enrolled: branches are not switched
                            // mid-experiment and bucketing fluctuations do
                            // not unenroll.
                            proof {
                                lemma_events_same(out_enrollment_events@);
                            }
                            self.clone()
                        },
                    }
                }
            },
            EnrollmentStatus::Disqualified { enrollment_id, branch, .. } => {
                proof {
                    lemma_events_same(out_enrollment_events@);
                }
                if !is_user_participating {
                    Self {
                        slug: self.slug.clone(),
                        status: EnrollmentStatus::Disqualified {
                            reason: DisqualifiedReason::OptOut,
                            enrollment_id: *enrollment_id,
                            branch: branch.clone(),
                        },
                    }
                } else {
                    self.clone()
                }
            },
            EnrollmentStatus::WasEnrolled { .. } | EnrollmentStatus::Error { .. } => {
                // Cannot recover from errors.
                proof {
                    lemma_events_same(out_enrollment_events@);
                }
                self.clone()
            },
        };
        proof {
            let fresh: u128 = match r@.status {
                StatusView::Enrolled { id, .. } => id,
                _ => 0,
            };
            assert(r@ == spec_on_updated(
                self@,
                is_user_participating,
                updated_experiment@,
                v,
                fresh,
            ));
            assert(events_views(out_enrollment_events@) == events_views(
                old(out_enrollment_events)@,
            ) + spec_on_updated_events(
                self@,
                is_user_participating,
                updated_experiment@,
                v,
                fresh,
            ));
        }
        r
    }

    /// Transition this record after its experiment disappeared from the
    /// server: to `WasEnrolled` (`Some`), or delete it (`None`).
    pub fn on_experiment_ended(
        &self,
        now: u64,
        out_enrollment_events: &mut Vec<EnrollmentChangeEvent>,
    ) -> (r: Option<Self>)
        ensures
            match spec_on_ended(self@, now) {
                Some(v) => r matches Some(e) && e@ == v,
                None => r is None,
            },
            events_views(final(out_enrollment_events)@) == events_views(old(out_enrollment_events)@)
                + spec_on_ended_events(self@, now),
    {
        let (branch, enrollment_id) = match &self.status {
            EnrollmentStatus::Enrolled { branch, enrollment_id, .. } => (branch, *enrollment_id),
            EnrollmentStatus::Disqualified { branch, enrollment_id, .. } => (
                branch,
                *enrollment_id,
            ),
            _ => {
                // This client was never enrolled: delete the record.
                proof {
                    lemma_events_same(out_enrollment_events@);
                }
                return None;
            },
        };
        let enrollment = Self {
            slug: self.slug.clone(),
            status: EnrollmentStatus::WasEnrolled {
                enrollment_id,
                branch: branch.clone(),
                experiment_ended_at: now,
            },
        };
        let ev = enrollment.get_change_event();
        proof {
            lemma_events_push(out_enrollment_events@, ev);
        }
        out_enrollment_events.push(ev);
        Some(enrollment)
    }

    /// The record produced by an explicit opt-out from this experiment.
    pub fn on_explicit_opt_out(
        &self,
        out_enrollment_events: &mut Vec<EnrollmentChangeEvent>,
    ) -> (r: Self)
        ensures
            r@ == spec_opt_out(self@),
            events_views(final(out_enrollment_events)@) == events_views(old(out_enrollment_events)@)
                + spec_opt_out_events(self@),
    {
        match &self.status {
            EnrollmentStatus::Enrolled { enrollment_id, branch, .. } => {
                let enrollment = Self {
                    slug: self.slug.clone(),
                    status: EnrollmentStatus::Disqualified {
                        reason: DisqualifiedReason::OptOut,
                        branch: branch.clone(),
                        enrollment_id: *enrollment_id,
                    },
                };
                let ev = enrollment.get_change_event();
                proof {
                    lemma_events_push(out_enrollment_events@, ev);
                }
                out_enrollment_events.push(ev);
                enrollment
            },
            EnrollmentStatus::NotEnrolled { .. } => {
                proof {
                    lemma_events_same(out_enrollment_events@);
                }
                Self {
                    slug: self.slug.clone(),
                    status: EnrollmentStatus::NotEnrolled { reason: NotEnrolledReason::OptOut },
                }
            },
            _ => {
                // Nothing to do for already-disqualified, historic, or
                // errored records.
                proof {
                    lemma_events_same(out_enrollment_events@);
                }
                self.clone()
            },
        }
    }

    /// Keep or delete (`None`) an old record whose experiment and update
    /// are both absent.  A `WasEnrolled` record is kept until
    /// `PREVIOUS_ENROLLMENTS_GC_TIME` has passed since its experiment ended.
    pub fn maybe_garbage_collect(&self, now: u64) -> (r: Option<Self>)
        ensures
            match spec_gc(self@, now) {
                Some(v) => r matches Some(e) && e@ == v,
                None => r is None,
            },
    {
        if let EnrollmentStatus::WasEnrolled { experiment_ended_at, .. } = &self.status {
            if now >= *experiment_ended_at && now - *experiment_ended_at
                < PREVIOUS_ENROLLMENTS_GC_TIME {
                return Some(self.clone());
            }
            if now < *experiment_ended_at {
                return Some(self.clone());
            }
        }
        None
    }

    /// The telemetry event describing the transition into this record's
    /// current status.
    pub fn get_change_event(&self) -> (ev: EnrollmentChangeEvent)
        requires
            is_eventful(self@.status),
        ensures
            ev@ == spec_change_event(self@),
    {
        match &self.status {
            EnrollmentStatus::Enrolled { enrollment_id, branch, .. } => EnrollmentChangeEvent::new(
                self.slug.as_str(),
                enrollment_id,
                branch.as_str(),
                None,
                EnrollmentChangeEventType::Enrollment,
            ),
            EnrollmentStatus::WasEnrolled { enrollment_id, branch, .. } => {
                EnrollmentChangeEvent::new(
                    self.slug.as_str(),
                    enrollment_id,
                    branch.as_str(),
                    None,
                    EnrollmentChangeEventType::Unenrollment,
                )
            },
            EnrollmentStatus::Disqualified { enrollment_id, reason, branch } => {
                EnrollmentChangeEvent::new(
                    self.slug.as_str(),
                    enrollment_id,
                    branch.as_str(),
                    match reason {
                        DisqualifiedReason::NotTargeted => Some("targeting"),
                        DisqualifiedReason::OptOut => Some("optout"),
                        DisqualifiedReason::Error => Some("error"),
                    },
                    EnrollmentChangeEventType::Disqualification,
                )
            },
            EnrollmentStatus::NotEnrolled { .. } | EnrollmentStatus::Error { .. } => {
                proof {
                    assert(false);
                }
                EnrollmentChangeEvent::new(
                    self.slug.as_str(),
                    &Uuid { bits: 0 },
                    "",
                    None,
                    EnrollmentChangeEventType::Enrollment,
                )
            },
        }
    }
}

} // verus!
