//! Laws of the enrollment engine, proved once and for all over the spec
//! model that the executable functions are verified against.

use vstd::prelude::*;
use crate::enrollment::{
    spec_gc, spec_on_ended, spec_on_updated, spec_opt_out, spec_opt_out_events, EnrollmentView,
    EventView, StatusView, PREVIOUS_ENROLLMENTS_GC_TIME,
};
use crate::evaluator::{lemma_selected_branch_exists, Verdict};
use crate::evolver::{
    count_emitting, find_enr, find_exp, in_union, lemma_find_enr, spec_step, spec_step_emits,
    spec_step_events, spec_step_is_err, spec_step_keeps, EvolverCtx,
};
use crate::types::ExperimentView;

verus! {

/// The enrollment id carried by a record, if its status has one.
pub open spec fn status_id(s: StatusView) -> Option<u128> {
    match s {
        StatusView::Enrolled { id, .. } => Some(id),
        StatusView::Disqualified { id, .. } => Some(id),
        StatusView::WasEnrolled { id, .. } => Some(id),
        _ => None,
    }
}

/// Law: the enrollment id is preserved verbatim by every transition out of
/// a record that carries one — updating against a changed experiment,
/// ending the experiment, explicitly opting out, and garbage collection
/// never mint or alter an id.  In particular the id observed in consecutive
/// `Enrolled`, `Disqualified` and `WasEnrolled` states is identical.
pub proof fn lemma_enrollment_id_preserved(
    prior: EnrollmentView,
    part: bool,
    exp: ExperimentView,
    v: Verdict,
    fresh: u128,
    now: u64,
)
    requires
        status_id(prior.status) is Some,
    ensures
        status_id(spec_on_updated(prior, part, exp, v, fresh).status) == status_id(prior.status),
        spec_on_ended(prior, now) matches Some(e) ==> status_id(e.status) == status_id(
            prior.status,
        ),
        status_id(spec_opt_out(prior).status) == status_id(prior.status),
        spec_gc(prior, now) matches Some(e) ==> e == prior,
{
}

/// Law: `Error` is terminal.  A record in the `Error` status is never
/// transformed by any evolve step — it is either kept exactly as it is or
/// deleted — and no step or explicit opt-out on it emits an event.
pub proof fn lemma_error_is_terminal(
    ctx: EvolverCtx,
    part: bool,
    now: u64,
    pe: Option<ExperimentView>,
    ne: Option<ExperimentView>,
    prior: EnrollmentView,
    fresh: u128,
)
    requires
        prior.status is Error,
    ensures
        spec_step(ctx, part, now, pe, ne, Some(prior), fresh) matches Some(r) ==> r == prior,
        spec_step_events(ctx, part, now, pe, ne, Some(prior), fresh) == Seq::<EventView>::empty(),
        spec_opt_out(prior) == prior,
        spec_opt_out_events(prior) == Seq::<EventView>::empty(),
{
    assert(spec_step_events(ctx, part, now, pe, ne, Some(prior), fresh) =~= Seq::<
        EventView,
    >::empty());
    assert(spec_opt_out_events(prior) =~= Seq::<EventView>::empty());
}

/// Law: the garbage-collection threshold.  A `WasEnrolled` record whose
/// experiment ended `T` seconds ago is kept exactly when
/// `T < PREVIOUS_ENROLLMENTS_GC_TIME`.
pub proof fn lemma_gc_threshold(prior: EnrollmentView, now: u64)
    requires
        prior.status is WasEnrolled,
    ensures
        prior.status matches StatusView::WasEnrolled { ended_at, .. } ==> (spec_gc(prior, now)
            == if now - ended_at < PREVIOUS_ENROLLMENTS_GC_TIME {
            Some(prior)
        } else {
            None::<EnrollmentView>
        }),
{
}

/// Law: the store invariant.  In a well-formed store — and every operation
/// of [`crate::db`] leaves the store well-formed — each stored experiment
/// has an enrollment record with its slug: the experiment sub-store's slugs
/// are a subset of the enrollment sub-store's slugs.
pub proof fn lemma_experiments_covered_by_enrollments(db: crate::db::DbView)
    requires
        crate::db::db_wf(db),
    ensures
        forall|i: int|
            0 <= i < db.experiments.len() ==> find_enr(
                db.enrollments,
                #[trigger] db.experiments[i].slug,
            ) is Some,
{
}

/// The record produced by one evolve step facing an update is a fixpoint of
/// the step the next update performs on it (same update, same participation
/// flag, same clock sample), and that second step emits nothing.
pub proof fn lemma_step_fixpoint(
    ctx: EvolverCtx,
    part: bool,
    now: u64,
    pe: Option<ExperimentView>,
    ne: Option<ExperimentView>,
    en: Option<EnrollmentView>,
    fresh: u128,
    fresh2: u128,
)
    requires
        !spec_step_is_err(pe, ne, en),
    ensures
        spec_step(ctx, part, now, pe, ne, en, fresh) matches Some(r) ==> ({
            &&& !spec_step_is_err(ne, ne, Some(r))
            &&& spec_step(ctx, part, now, ne, ne, Some(r), fresh2) == Some(r)
            &&& spec_step_events(ctx, part, now, ne, ne, Some(r), fresh2) == Seq::<
                EventView,
            >::empty()
            &&& !spec_step_emits(ctx, part, now, ne, ne, Some(r))
        }),
{
    if spec_step(ctx, part, now, pe, ne, en, fresh) is Some {
        let r = spec_step(ctx, part, now, pe, ne, en, fresh)->Some_0;
        match ne {
            Some(x) => {
                lemma_selected_branch_exists(ctx.nimbus_id, ctx.aru, ctx.app_id, x);
                assert(spec_step(ctx, part, now, ne, ne, Some(r), fresh2) == Some(r));
            },
            None => {
                assert(spec_step(ctx, part, now, ne, ne, Some(r), fresh2) == Some(r));
            },
        }
        assert(spec_step_events(ctx, part, now, ne, ne, Some(r), fresh2) =~= Seq::<
            EventView,
        >::empty());
    }
}

/// No slug of the given list emits an event, so the count of emitting
/// slugs is zero.
pub proof fn lemma_count_zero(
    ctx: EvolverCtx,
    part: bool,
    now: u64,
    pes: Seq<ExperimentView>,
    nes: Seq<ExperimentView>,
    ens: Seq<EnrollmentView>,
    slugs: Seq<Seq<char>>,
)
    requires
        forall|j: int|
            0 <= j < slugs.len() ==> !spec_step_emits(
                ctx,
                part,
                now,
                find_exp(pes, #[trigger] slugs[j]),
                find_exp(nes, slugs[j]),
                find_enr(ens, slugs[j]),
            ),
    ensures
        count_emitting(ctx, part, now, pes, nes, ens, slugs) == 0,
    decreases slugs.len(),
{
    if slugs.len() > 0 {
        assert forall|j: int|
            0 <= j < slugs.drop_last().len() implies !spec_step_emits(
            ctx,
            part,
            now,
            find_exp(pes, #[trigger] slugs.drop_last()[j]),
            find_exp(nes, slugs.drop_last()[j]),
            find_enr(ens, slugs.drop_last()[j]),
        ) by {
            assert(slugs.drop_last()[j] == slugs[j]);
        }
        lemma_count_zero(ctx, part, now, pes, nes, ens, slugs.drop_last());
        assert(slugs.last() == slugs[slugs.len() - 1]);
    }
}

/// Law: evolving is idempotent.  Suppose one update succeeded: the store
/// now holds the updated experiments `nes` and the records `recs` that the
/// per-slug steps produced from the prior state `(pes, ens)`.  Then a
/// second update with the same experiments, the same participation flag and
/// the same clock sample succeeds, keeps every record exactly as it is, and
/// emits no events at all.
pub proof fn lemma_evolve_idempotent(
    ctx: EvolverCtx,
    part: bool,
    now: u64,
    pes: Seq<ExperimentView>,
    nes: Seq<ExperimentView>,
    ens: Seq<EnrollmentView>,
    recs: Seq<EnrollmentView>,
)
    requires
        forall|slug: Seq<char>|
            #[trigger] in_union(pes, nes, ens, slug) ==> !spec_step_is_err(
                find_exp(pes, slug),
                find_exp(nes, slug),
                find_enr(ens, slug),
            ),
        forall|slug: Seq<char>|
            #[trigger] in_union(pes, nes, ens, slug) ==> (find_enr(recs, slug) is Some
                <==> spec_step_keeps(
                ctx,
                part,
                now,
                find_exp(pes, slug),
                find_exp(nes, slug),
                find_enr(ens, slug),
            )),
        forall|slug: Seq<char>|
            #[trigger] in_union(pes, nes, ens, slug) ==> (find_enr(recs, slug) matches Some(rec)
                ==> exists|fresh: u128|
                #![auto]
                spec_step(
                    ctx,
                    part,
                    now,
                    find_exp(pes, slug),
                    find_exp(nes, slug),
                    find_enr(ens, slug),
                    fresh,
                ) == Some(rec)),
        forall|i: int| 0 <= i < recs.len() ==> in_union(pes, nes, ens, #[trigger] recs[i].slug),
    ensures
        forall|slug: Seq<char>|
            #[trigger] in_union(nes, nes, recs, slug) ==> !spec_step_is_err(
                find_exp(nes, slug),
                find_exp(nes, slug),
                find_enr(recs, slug),
            ),
        forall|slug: Seq<char>, fresh2: u128|
            in_union(nes, nes, recs, slug) ==> #[trigger] spec_step(
                ctx,
                part,
                now,
                find_exp(nes, slug),
                find_exp(nes, slug),
                find_enr(recs, slug),
                fresh2,
            ) == find_enr(recs, slug),
        forall|slug: Seq<char>|
            #[trigger] in_union(nes, nes, recs, slug) ==> !spec_step_emits(
                ctx,
                part,
                now,
                find_exp(nes, slug),
                find_exp(nes, slug),
                find_enr(recs, slug),
            ),
        count_emitting(
            ctx,
            part,
            now,
            nes,
            nes,
            recs,
            crate::evolver::union_slugs(nes, nes, recs),
        ) == 0,
{
    assert forall|slug: Seq<char>| #[trigger]
        in_union(nes, nes, recs, slug) implies ({
        &&& !spec_step_is_err(find_exp(nes, slug), find_exp(nes, slug), find_enr(recs, slug))
        &&& forall|fresh2: u128|
            #[trigger] spec_step(
                ctx,
                part,
                now,
                find_exp(nes, slug),
                find_exp(nes, slug),
                find_enr(recs, slug),
                fresh2,
            ) == find_enr(recs, slug)
        &&& !spec_step_emits(ctx, part, now, find_exp(nes, slug), find_exp(nes, slug), find_enr(recs, slug))
    }) by {
        lemma_find_enr(recs, slug);
        crate::evolver::lemma_find_exp(nes, slug);
        if find_enr(recs, slug) is Some {
            let rec = find_enr(recs, slug)->Some_0;
            let i = choose|i: int| 0 <= i < recs.len() && recs[i] == rec;
            assert(in_union(pes, nes, ens, recs[i].slug));
            let fresh = choose|fresh: u128|
                #![auto]
                spec_step(
                    ctx,
                    part,
                    now,
                    find_exp(pes, slug),
                    find_exp(nes, slug),
                    find_enr(ens, slug),
                    fresh,
                ) == Some(rec);
            assert forall|fresh2: u128|
                #[trigger] spec_step(
                    ctx,
                    part,
                    now,
                    find_exp(nes, slug),
                    find_exp(nes, slug),
                    find_enr(recs, slug),
                    fresh2,
                ) == find_enr(recs, slug) by {
                lemma_step_fixpoint(
                    ctx,
                    part,
                    now,
                    find_exp(pes, slug),
                    find_exp(nes, slug),
                    find_enr(ens, slug),
                    fresh,
                    fresh2,
                );
            }
            lemma_step_fixpoint(
                ctx,
                part,
                now,
                find_exp(pes, slug),
                find_exp(nes, slug),
                find_enr(ens, slug),
                fresh,
                0,
            );
        } else {
            // A slug of the second union without a record can only come
            // from the updated experiments, but every updated experiment
            // kept a record in the first call.
            assert(find_exp(nes, slug) is Some);
            assert(in_union(pes, nes, ens, slug));
            assert(spec_step_keeps(
                ctx,
                part,
                now,
                find_exp(pes, slug),
                find_exp(nes, slug),
                find_enr(ens, slug),
            ));
            assert(false);
        }
    }
    let u2 = crate::evolver::union_slugs(nes, nes, recs);
    crate::evolver::lemma_union_slugs(nes, nes, recs);
    assert forall|j: int|
        0 <= j < u2.len() implies !spec_step_emits(
        ctx,
        part,
        now,
        find_exp(nes, #[trigger] u2[j]),
        find_exp(nes, u2[j]),
        find_enr(recs, u2[j]),
    ) by {
        assert(u2.contains(u2[j]));
        assert(in_union(nes, nes, recs, u2[j]));
    }
    lemma_count_zero(ctx, part, now, nes, nes, recs, u2);
}

} // verus!
