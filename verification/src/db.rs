//! The persistence driver: a transactional store with three sub-stores
//! (experiments, enrollments, and the meta flag), and the public operations
//! of the engine.
//!
//! Every mutating operation either completes and leaves the store
//! well-formed, or fails and leaves it exactly as it was: the pending
//! changes of an aborted transaction are never visible.  Well-formedness
//! couples the two sub-stores: every stored experiment has an enrollment
//! record with the same slug.

use vstd::prelude::*;
use crate::enrollment::{
    events_views, spec_change_event, spec_opt_in, spec_opt_out, spec_opt_out_events,
    EnrollmentChangeEvent, EnrollmentView, EventView, ExperimentEnrollment, StatusView,
};
use crate::errors::NimbusError;
use crate::evolver::{
    count_emitting, enrs_views, event_for_slug_at, exps_views, find_enr, find_exp, in_union,
    is_step_event, lemma_find_enr, lemma_find_enr_push, lemma_find_exp, spec_step,
    spec_step_is_err, spec_step_keeps, union_slugs, EnrollmentsEvolver,
};
use crate::ids::uuid_text;
use crate::strutil::str_eq;
use crate::types::{spec_has_branch, Experiment, ExperimentView};

verus! {

/// The global user participation flag defaults to on.
pub const DEFAULT_GLOBAL_USER_PARTICIPATION: bool = true;

/// The user-facing view of one enrolled experiment, as returned by
/// [`get_enrollments`].
#[derive(Debug, PartialEq)]
pub struct EnrolledExperiment {
    pub slug: String,
    pub user_facing_name: String,
    pub user_facing_description: String,
    pub branch_slug: String,
    /// The enrollment id in its hyphenated text form.
    pub enrollment_id: String,
}

/// Spec view of [`EnrolledExperiment`].
#[verifier::ext_equal]
pub struct EnrolledExperimentView {
    pub slug: Seq<char>,
    pub user_facing_name: Seq<char>,
    pub user_facing_description: Seq<char>,
    pub branch_slug: Seq<char>,
    pub enrollment_id: Seq<char>,
}

impl View for EnrolledExperiment {
    type V = EnrolledExperimentView;

    open spec fn view(&self) -> EnrolledExperimentView {
        EnrolledExperimentView {
            slug: self.slug@,
            user_facing_name: self.user_facing_name@,
            user_facing_description: self.user_facing_description@,
            branch_slug: self.branch_slug@,
            enrollment_id: self.enrollment_id@,
        }
    }
}

/// The views of a sequence of enrolled-experiment summaries.
pub open spec fn enrolled_views(s: Seq<EnrolledExperiment>) -> Seq<EnrolledExperimentView> {
    s.map_values(|e: EnrolledExperiment| e@)
}

/// Spec view of [`Database`]: the contents of its three sub-stores.
#[verifier::ext_equal]
pub struct DbView {
    pub experiments: Seq<ExperimentView>,
    pub enrollments: Seq<EnrollmentView>,
    pub user_opt_in: Option<bool>,
}

/// Well-formedness of the store: slugs are unique within each sub-store,
/// and every stored experiment has an enrollment record with its slug.
pub open spec fn db_wf(db: DbView) -> bool {
    &&& forall|i: int, j: int|
        0 <= i < j < db.experiments.len() ==> #[trigger] db.experiments[i].slug
            != #[trigger] db.experiments[j].slug
    &&& forall|i: int, j: int|
        0 <= i < j < db.enrollments.len() ==> #[trigger] db.enrollments[i].slug
            != #[trigger] db.enrollments[j].slug
    &&& forall|i: int|
        0 <= i < db.experiments.len() ==> find_enr(
            db.enrollments,
            #[trigger] db.experiments[i].slug,
        ) is Some
}

/// Whether the user participates in experiments, given the stored flag.
pub open spec fn spec_user_participation(db: DbView) -> bool {
    match db.user_opt_in {
        Some(b) => b,
        None => DEFAULT_GLOBAL_USER_PARTICIPATION,
    }
}

/// The transactional store: experiments and enrollments keyed by slug, and
/// the persisted meta flag for global user participation.
pub struct Database {
    experiments: Vec<Experiment>,
    enrollments: Vec<ExperimentEnrollment>,
    user_opt_in: Option<bool>,
}

impl View for Database {
    type V = DbView;

    closed spec fn view(&self) -> DbView {
        DbView {
            experiments: exps_views(self.experiments@),
            enrollments: enrs_views(self.enrollments@),
            user_opt_in: self.user_opt_in,
        }
    }
}

impl Database {
    /// An empty store.
    pub fn new() -> (db: Self)
        ensures
            db@.experiments == Seq::<ExperimentView>::empty(),
            db@.enrollments == Seq::<EnrollmentView>::empty(),
            db@.user_opt_in is None,
            db_wf(db@),
    {
        let db = Database { experiments: Vec::new(), enrollments: Vec::new(), user_opt_in: None };
        proof {
            assert(db@.experiments =~= Seq::<ExperimentView>::empty());
            assert(db@.enrollments =~= Seq::<EnrollmentView>::empty());
        }
        db
    }

    /// All enrollment records currently stored.
    pub fn collect_enrollments(&self) -> (r: Vec<ExperimentEnrollment>)
        ensures
            enrs_views(r@) == self@.enrollments,
    {
        let mut r: Vec<ExperimentEnrollment> = Vec::new();
        let mut i: usize = 0;
        while i < self.enrollments.len()
            invariant
                0 <= i <= self.enrollments@.len(),
                r@.len() == i,
                forall|k: int| 0 <= k < i ==> #[trigger] r@[k]@ == self.enrollments@[k]@,
            decreases self.enrollments@.len() - i,
        {
            r.push(self.enrollments[i].clone());
            i += 1;
        }
        proof {
            assert(enrs_views(r@) =~= self@.enrollments);
        }
        r
    }

    /// The enrollment record for one slug, if any.
    pub fn get_enrollment(&self, slug: &str) -> (r: Option<ExperimentEnrollment>)
        ensures
            crate::evolver::opt_rec_view(r) == find_enr(self@.enrollments, slug@),
    {
        match crate::evolver::find_enrollment(self.enrollments.as_slice(), slug) {
            Some(e) => Some(e.clone()),
            None => None,
        }
    }
}

/// Read the global user participation flag; `true` unless set otherwise.
pub fn get_global_user_participation(db: &Database) -> (r: bool)
    ensures
        r == spec_user_participation(db@),
{
    match db.user_opt_in {
        Some(b) => b,
        None => DEFAULT_GLOBAL_USER_PARTICIPATION,
    }
}

/// Write the global user participation flag.
pub fn set_global_user_participation(db: &mut Database, opt_in: bool)
    ensures
        final(db)@.experiments == old(db)@.experiments,
        final(db)@.enrollments == old(db)@.enrollments,
        final(db)@.user_opt_in == Some(opt_in),
{
    db.user_opt_in = Some(opt_in);
}

/// The user-facing summaries of all enrolled experiments, joining each
/// `Enrolled` record with its stored experiment; records whose experiment
/// has vanished are skipped.
pub open spec fn spec_enrolled_list(
    enrs: Seq<EnrollmentView>,
    exps: Seq<ExperimentView>,
) -> Seq<EnrolledExperimentView>
    decreases enrs.len(),
{
    if enrs.len() == 0 {
        Seq::empty()
    } else {
        let rest = spec_enrolled_list(enrs.skip(1), exps);
        match enrs[0].status {
            StatusView::Enrolled { id, branch, .. } => match find_exp(exps, enrs[0].slug) {
                Some(x) => seq![
                    EnrolledExperimentView {
                        slug: x.slug,
                        user_facing_name: x.user_facing_name,
                        user_facing_description: x.user_facing_description,
                        branch_slug: branch,
                        enrollment_id: uuid_text(id),
                    },
                ] + rest,
                None => rest,
            },
            _ => rest,
        }
    }
}

/// Return information about all enrolled experiments.
pub fn get_enrollments(db: &Database) -> (r: Vec<EnrolledExperiment>)
    ensures
        enrolled_views(r@) == spec_enrolled_list(db@.enrollments, db@.experiments),
{
    let ghost ens = db@.enrollments;
    let ghost exs = db@.experiments;
    let mut result: Vec<EnrolledExperiment> = Vec::new();
    let mut i: usize = 0;
    proof {
        assert(ens.skip(0) =~= ens);
        assert(enrolled_views(result@) =~= Seq::<EnrolledExperimentView>::empty());
        assert(Seq::<EnrolledExperimentView>::empty() + spec_enrolled_list(ens, exs)
            =~= spec_enrolled_list(ens, exs));
    }
    while i < db.enrollments.len()
        invariant
            ens == db@.enrollments,
            exs == db@.experiments,
            0 <= i <= ens.len(),
            enrolled_views(result@) + spec_enrolled_list(ens.skip(i as int), exs)
                == spec_enrolled_list(ens, exs),
        decreases ens.len() - i,
    {
        let enrollment = &db.enrollments[i];
        proof {
            assert(ens.skip(i as int)[0] == ens[i as int]);
            assert(ens.skip(i as int).skip(1) =~= ens.skip(i as int + 1));
        }
        match &enrollment.status {
            crate::enrollment::EnrollmentStatus::Enrolled { branch, enrollment_id, .. } => {
                match crate::evolver::find_experiment(
                    db.experiments.as_slice(),
                    enrollment.slug.as_str(),
                ) {
                    Some(experiment) => {
                        let item = EnrolledExperiment {
                            slug: experiment.slug.clone(),
                            user_facing_name: experiment.user_facing_name.clone(),
                            user_facing_description: experiment.user_facing_description.clone(),
                            branch_slug: branch.clone(),
                            enrollment_id: enrollment_id.hyphenated(),
                        };
                        let ghost before = result@;
                        result.push(item);
                        proof {
                            assert(enrolled_views(result@) =~= enrolled_views(before).push(item@));
                            assert(enrolled_views(before).push(item@) + spec_enrolled_list(
                                ens.skip(i as int + 1),
                                exs,
                            ) =~= enrolled_views(before) + (seq![item@] + spec_enrolled_list(
                                ens.skip(i as int + 1),
                                exs,
                            )));
                        }
                    },
                    None => {
                        // An enrollment without a matching experiment: skip.
                    },
                }
            },
            _ => {},
        }
        i += 1;
    }
    proof {
        assert(ens.skip(ens.len() as int) =~= Seq::<EnrollmentView>::empty());
        assert(enrolled_views(result@) + Seq::<EnrolledExperimentView>::empty() =~= enrolled_views(
            result@,
        ));
    }
    result
}

/// Looking up in an updated sequence: the written slug finds the new
/// record, all other slugs find what they found before.
proof fn lemma_find_enr_update(s: Seq<EnrollmentView>, i: int, rec: EnrollmentView, slug: Seq<char>)
    requires
        0 <= i < s.len(),
        s[i].slug == rec.slug,
        forall|k: int| 0 <= k < i ==> s[k].slug != rec.slug,
    ensures
        find_enr(s.update(i, rec), slug) == (if slug == rec.slug {
            Some(rec)
        } else {
            find_enr(s, slug)
        }),
    decreases i,
{
    let t = s.update(i, rec);
    if i == 0 {
        assert(t[0] == rec);
        if slug == rec.slug {
            assert(find_enr(t, slug) == Some(rec));
        } else {
            assert(t.skip(1) =~= s.skip(1));
            assert(find_enr(t, slug) == find_enr(t.skip(1), slug));
            assert(find_enr(s, slug) == find_enr(s.skip(1), slug));
        }
    } else {
        assert(t[0] == s[0]);
        assert(t.skip(1) =~= s.skip(1).update(i - 1, rec));
        assert(s.skip(1)[i - 1] == s[i]);
        assert forall|k: int| 0 <= k < i - 1 implies s.skip(1)[k].slug != rec.slug by {
            assert(s.skip(1)[k] == s[k + 1]);
        }
        lemma_find_enr_update(s.skip(1), i - 1, rec, slug);
        if s[0].slug == slug {
            assert(s[0].slug != rec.slug);
            assert(find_enr(t, slug) == Some(s[0]));
            assert(find_enr(s, slug) == Some(s[0]));
        } else {
            assert(find_enr(t, slug) == find_enr(t.skip(1), slug));
            assert(find_enr(s, slug) == find_enr(s.skip(1), slug));
        }
    }
}

/// Write an enrollment record keyed by its slug: replace the record with
/// the same slug, or append.
#[verifier::loop_isolation(false)]
fn put_enrollment(v: &mut Vec<ExperimentEnrollment>, rec: ExperimentEnrollment)
    requires
        forall|i: int, j: int|
            0 <= i < j < old(v)@.len() ==> #[trigger] enrs_views(old(v)@)[i].slug
                != #[trigger] enrs_views(old(v)@)[j].slug,
    ensures
        ({
            let before = enrs_views(old(v)@);
            let after = enrs_views(final(v)@);
            &&& forall|slug: Seq<char>|
                slug != rec@.slug ==> find_enr(after, slug) == #[trigger] find_enr(before, slug)
            &&& find_enr(after, rec@.slug) == Some(rec@)
            &&& forall|i: int, j: int|
                0 <= i < j < after.len() ==> #[trigger] after[i].slug != #[trigger] after[j].slug
        }),
{
    let ghost before = enrs_views(v@);
    let mut i: usize = 0;
    while i < v.len()
        invariant
            before == enrs_views(v@),
            0 <= i <= before.len(),
            forall|k: int| 0 <= k < i ==> #[trigger] before[k].slug != rec@.slug,
            forall|i: int, j: int|
                0 <= i < j < before.len() ==> #[trigger] before[i].slug != #[trigger] before[j].slug,
        decreases before.len() - i,
    {
        if str_eq(v[i].slug.as_str(), rec.slug.as_str()) {
            let ghost rv = rec@;
            assert(before[i as int].slug == rv.slug);
            v[i] = rec;
            proof {
                assert(enrs_views(v@) =~= before.update(i as int, rv));
                assert forall|slug: Seq<char>|
                    slug != rv.slug implies find_enr(enrs_views(v@), slug) == #[trigger] find_enr(
                    before,
                    slug,
                ) by {
                    lemma_find_enr_update(before, i as int, rv, slug);
                }
                lemma_find_enr_update(before, i as int, rv, rv.slug);
                assert(find_enr(enrs_views(v@), rv.slug) == Some(rv));
                assert forall|a: int, b: int|
                    0 <= a < b < enrs_views(v@).len() implies #[trigger] enrs_views(v@)[a].slug
                    != #[trigger] enrs_views(v@)[b].slug by {
                    assert(enrs_views(v@)[a].slug == before[a].slug);
                    assert(enrs_views(v@)[b].slug == before[b].slug);
                }
            }
            return ;
        }
        i += 1;
    }
    proof {
        lemma_find_enr(before, rec@.slug);
        if find_enr(before, rec@.slug) is Some {
            let k = choose|k: int| 0 <= k < before.len() && before[k].slug == rec@.slug;
            assert(false);
        }
    }
    let ghost rv = rec@;
    v.push(rec);
    proof {
        assert(enrs_views(v@) =~= before.push(rv));
        lemma_find_enr_push(before, rv);
        assert forall|a: int, b: int|
            0 <= a < b < enrs_views(v@).len() implies #[trigger] enrs_views(v@)[a].slug
            != #[trigger] enrs_views(v@)[b].slug by {
            if b < before.len() {
            } else {
                assert(enrs_views(v@)[b] == rv);
                assert(enrs_views(v@)[a].slug == before[a].slug);
            }
        }
    }
}

/// What a successful explicit opt-in did to the store: the experiment was
/// found, the branch exists, and the enrollment record for the slug is a
/// fresh `Enrolled { reason: OptIn }` whose single enrollment event is
/// returned.
pub open spec fn spec_opt_in_ok(
    old_db: DbView,
    new_db: DbView,
    slug: Seq<char>,
    branch: Seq<char>,
    evs: Seq<EventView>,
) -> bool {
    match find_exp(old_db.experiments, slug) {
        Some(x) => spec_has_branch(x, branch) && exists|fresh: u128|
            find_enr(new_db.enrollments, slug) == Some(#[trigger] spec_opt_in(x, branch, fresh))
                && evs == seq![spec_change_event(spec_opt_in(x, branch, fresh))],
        None => false,
    }
}

/// Explicitly opt in to one branch of a stored experiment, in its own
/// transaction.
pub fn opt_in_with_branch(
    db: &mut Database,
    experiment_slug: &str,
    branch: &str,
) -> (r: Result<Vec<EnrollmentChangeEvent>, NimbusError>)
    requires
        db_wf(old(db)@),
    ensures
        db_wf(final(db)@),
        final(db)@.experiments == old(db)@.experiments,
        final(db)@.user_opt_in == old(db)@.user_opt_in,
        r is Ok <==> (find_exp(old(db)@.experiments, experiment_slug@) matches Some(x)
            && spec_has_branch(x, branch@)),
        r matches Ok(evs) ==> (spec_opt_in_ok(
            old(db)@,
            final(db)@,
            experiment_slug@,
            branch@,
            events_views(evs@),
        ) && forall|slug: Seq<char>|
            slug != experiment_slug@ ==> find_enr(final(db)@.enrollments, slug)
                == #[trigger] find_enr(old(db)@.enrollments, slug)),
        r matches Err(e) ==> (final(db)@ == old(db)@ && match e {
            NimbusError::NoSuchExperiment(s) => find_exp(old(db)@.experiments, experiment_slug@)
                is None && s@ == experiment_slug@,
            NimbusError::NoSuchBranch(b, s) => (find_exp(old(db)@.experiments, experiment_slug@)
                matches Some(x) && !spec_has_branch(x, branch@) && b@ == branch@ && s@ == x.slug),
            NimbusError::InternalError(_) => false,
        }),
{
    let mut events: Vec<EnrollmentChangeEvent> = Vec::new();
    let exp = match crate::evolver::find_experiment(
        db.experiments.as_slice(),
        experiment_slug,
    ) {
        Some(e) => e,
        None => {
            return Err(NimbusError::NoSuchExperiment(experiment_slug.to_owned()));
        },
    };
    proof {
        lemma_find_exp(old(db)@.experiments, experiment_slug@);
    }
    let enrollment = match ExperimentEnrollment::from_explicit_opt_in(exp, branch, &mut events) {
        Ok(e) => e,
        Err(e) => {
            return Err(e);
        },
    };
    let ghost rec = enrollment@;
    put_enrollment(&mut db.enrollments, enrollment);
    proof {
        assert(events_views(Seq::<EnrollmentChangeEvent>::empty()) =~= Seq::<EventView>::empty());
        assert forall|i: int|
            0 <= i < db@.experiments.len() implies find_enr(
            db@.enrollments,
            #[trigger] db@.experiments[i].slug,
        ) is Some by {
            if db@.experiments[i].slug != rec.slug {
            }
        }
        let fresh = choose|fresh: u128|
            #![auto]
            rec == spec_opt_in(exp@, branch@, fresh) && events_views(events@) == events_views(
                Seq::<EnrollmentChangeEvent>::empty(),
            ) + seq![spec_change_event(spec_opt_in(exp@, branch@, fresh))];
        assert(events_views(events@) =~= seq![spec_change_event(spec_opt_in(exp@, branch@, fresh))]);
    }
    Ok(events)
}

/// What a successful explicit opt-out did to the store: the enrollment
/// record was found and replaced by its opt-out transition, whose events
/// are returned.
pub open spec fn spec_opt_out_ok(
    old_db: DbView,
    new_db: DbView,
    slug: Seq<char>,
    evs: Seq<EventView>,
) -> bool {
    match find_enr(old_db.enrollments, slug) {
        Some(e) => {
            &&& find_enr(new_db.enrollments, slug) == Some(spec_opt_out(e))
            &&& evs == spec_opt_out_events(e)
        },
        None => false,
    }
}

/// Explicitly opt out of one experiment, in its own transaction.
pub fn opt_out(db: &mut Database, experiment_slug: &str) -> (r: Result<
    Vec<EnrollmentChangeEvent>,
    NimbusError,
>)
    requires
        db_wf(old(db)@),
    ensures
        db_wf(final(db)@),
        final(db)@.experiments == old(db)@.experiments,
        final(db)@.user_opt_in == old(db)@.user_opt_in,
        r is Ok <==> find_enr(old(db)@.enrollments, experiment_slug@) is Some,
        r matches Ok(evs) ==> (spec_opt_out_ok(
            old(db)@,
            final(db)@,
            experiment_slug@,
            events_views(evs@),
        ) && forall|slug: Seq<char>|
            slug != experiment_slug@ ==> find_enr(final(db)@.enrollments, slug)
                == #[trigger] find_enr(old(db)@.enrollments, slug)),
        r matches Err(e) ==> (final(db)@ == old(db)@ && match e {
            NimbusError::NoSuchExperiment(s) => find_enr(old(db)@.enrollments, experiment_slug@)
                is None && s@ == experiment_slug@,
            _ => false,
        }),
{
    let mut events: Vec<EnrollmentChangeEvent> = Vec::new();
    let existing_enrollment = match crate::evolver::find_enrollment(
        db.enrollments.as_slice(),
        experiment_slug,
    ) {
        Some(e) => e.clone(),
        None => {
            return Err(NimbusError::NoSuchExperiment(experiment_slug.to_owned()));
        },
    };
    proof {
        lemma_find_enr(old(db)@.enrollments, experiment_slug@);
    }
    let updated_enrollment = existing_enrollment.on_explicit_opt_out(&mut events);
    let ghost rec = updated_enrollment@;
    put_enrollment(&mut db.enrollments, updated_enrollment);
    proof {
        assert(events_views(Seq::<EnrollmentChangeEvent>::empty()) =~= Seq::<EventView>::empty());
        assert(events_views(events@) =~= spec_opt_out_events(existing_enrollment@));
        assert forall|i: int|
            0 <= i < db@.experiments.len() implies find_enr(
            db@.enrollments,
            #[trigger] db@.experiments[i].slug,
        ) is Some by {
            if db@.experiments[i].slug != rec.slug {
            }
        }
    }
    Ok(events)
}

impl<'a> EnrollmentsEvolver<'a> {
    /// Fetch the current experiments, enrollments and participation flag
    /// from the store, evolve the enrollments against the update, and — in
    /// the same transaction — rewrite both sub-stores.  On any error the
    /// store is left exactly as it was.
    #[verifier::loop_isolation(false)]
    pub fn evolve_enrollments_in_db(
        &self,
        db: &mut Database,
        updated_experiments: &[Experiment],
    ) -> (r: Result<Vec<EnrollmentChangeEvent>, NimbusError>)
        requires
            db_wf(old(db)@),
            forall|i: int, j: int|
                0 <= i < j < updated_experiments@.len() ==> #[trigger] exps_views(
                    updated_experiments@,
                )[i].slug != #[trigger] exps_views(updated_experiments@)[j].slug,
        ensures
            ({
                let part = spec_user_participation(old(db)@);
                let pes = old(db)@.experiments;
                let nes = exps_views(updated_experiments@);
                let ens = old(db)@.enrollments;
                &&& (r is Err <==> exists|slug: Seq<char>|
                    #[trigger] in_union(pes, nes, ens, slug) && spec_step_is_err(
                        find_exp(pes, slug),
                        find_exp(nes, slug),
                        find_enr(ens, slug),
                    ))
                &&& (r matches Err(e) ==> (final(db)@ == old(db)@ && e is InternalError))
                &&& (r matches Ok(evs) ==> ({
                    let recs = final(db)@.enrollments;
                    &&& final(db)@.user_opt_in == old(db)@.user_opt_in
                    &&& final(db)@.experiments == nes
                    &&& forall|slug: Seq<char>|
                        #[trigger] in_union(pes, nes, ens, slug) ==> (find_enr(recs, slug) is Some
                            <==> spec_step_keeps(
                            self.ctx(),
                            part,
                            self.now,
                            find_exp(pes, slug),
                            find_exp(nes, slug),
                            find_enr(ens, slug),
                        ))
                    &&& forall|slug: Seq<char>|
                        #[trigger] in_union(pes, nes, ens, slug) ==> (find_enr(recs, slug) matches Some(rec)
                            ==> exists|fresh: u128|
                            #![auto]
                            spec_step(
                                self.ctx(),
                                part,
                                self.now,
                                find_exp(pes, slug),
                                find_exp(nes, slug),
                                find_enr(ens, slug),
                                fresh,
                            ) == Some(rec))
                    &&& forall|i: int|
                        0 <= i < recs.len() ==> in_union(pes, nes, ens, #[trigger] recs[i].slug)
                    &&& evs@.len() == count_emitting(
                        self.ctx(),
                        part,
                        self.now,
                        pes,
                        nes,
                        ens,
                        union_slugs(pes, nes, ens),
                    )
                    &&& forall|k: int|
                        0 <= k < evs@.len() ==> is_step_event(
                            self.ctx(),
                            part,
                            self.now,
                            pes,
                            nes,
                            ens,
                            #[trigger] crate::enrollment::events_views(evs@)[k],
                        )
                    &&& forall|j: int|
                        0 <= j < union_slugs(pes, nes, ens).len() ==> #[trigger] event_for_slug_at(
                            self.ctx(),
                            part,
                            self.now,
                            pes,
                            nes,
                            ens,
                            j,
                            crate::enrollment::events_views(evs@),
                        )
                    &&& db_wf(final(db)@)
                }))
            }),
    {
        let ghost pes = old(db)@.experiments;
        let ghost nes = exps_views(updated_experiments@);
        let ghost ens = old(db)@.enrollments;
        // Read the current state of the store.
        let is_user_participating = get_global_user_participation(db);
        // Calculate the changes.
        let step = self.evolve_enrollments(
            is_user_participating,
            db.experiments.as_slice(),
            updated_experiments,
            db.enrollments.as_slice(),
        );
        let (updated_enrollments, enrollment_events) = match step {
            Ok(p) => p,
            Err(e) => {
                return Err(e);
            },
        };
        // Check the store invariant before writing: every updated
        // experiment must have an updated enrollment record.
        let mut i: usize = 0;
        while i < updated_experiments.len()
            invariant
                nes == exps_views(updated_experiments@),
                0 <= i <= nes.len(),
                forall|k: int|
                    0 <= k < i ==> find_enr(
                        enrs_views(updated_enrollments@),
                        #[trigger] nes[k].slug,
                    ) is Some,
            decreases nes.len() - i,
        {
            let found = crate::evolver::find_enrollment(
                updated_enrollments.as_slice(),
                updated_experiments[i].slug.as_str(),
            );
            if found.is_none() {
                proof {
                    let slugv = nes[i as int].slug;
                    lemma_find_exp(nes, slugv);
                    assert(exists|k: int| 0 <= k < nes.len() && nes[k].slug == slugv);
                    assert(find_exp(nes, slugv) is Some);
                    assert(in_union(pes, nes, ens, slugv));
                    assert(!(in_union(pes, nes, ens, slugv) && spec_step_is_err(
                        find_exp(pes, slugv),
                        find_exp(nes, slugv),
                        find_enr(ens, slugv),
                    )));
                    assert(spec_step_keeps(
                        self.ctx(),
                        is_user_participating,
                        self.now,
                        find_exp(pes, slugv),
                        find_exp(nes, slugv),
                        find_enr(ens, slugv),
                    ));
                    assert(find_enr(enrs_views(updated_enrollments@), slugv) is Some);
                    assert(false);
                }
                return Err(
                    NimbusError::InternalError(
                        "An experiment must always have an associated enrollment.",
                    ),
                );
            }
            i += 1;
        }
        // Commit: clear both sub-stores and write the new state.
        let mut experiments: Vec<Experiment> = Vec::new();
        let mut i: usize = 0;
        while i < updated_experiments.len()
            invariant
                nes == exps_views(updated_experiments@),
                0 <= i <= nes.len(),
                experiments@.len() == i,
                forall|k: int| 0 <= k < i ==> #[trigger] experiments@[k]@ == nes[k],
            decreases nes.len() - i,
        {
            experiments.push(updated_experiments[i].clone());
            i += 1;
        }
        let ghost recs = enrs_views(updated_enrollments@);
        db.experiments = experiments;
        db.enrollments = updated_enrollments;
        proof {
            assert(db@.experiments =~= nes);
            assert(db@.enrollments == recs);
            assert forall|i: int|
                0 <= i < db@.experiments.len() implies find_enr(
                recs,
                #[trigger] db@.experiments[i].slug,
            ) is Some by {
                lemma_find_exp(nes, nes[i].slug);
            }
            assert forall|a: int, b: int|
                0 <= a < b < recs.len() implies #[trigger] recs[a].slug
                != #[trigger] recs[b].slug by {}
        }
        Ok(enrollment_events)
    }
}

} // verus!
