//! The evolver: pairwise reconciliation across the union of experiment
//! slugs from the prior experiments, the updated experiments, and the prior
//! enrollment records.
//!
//! Each slug is classified by which of the three inputs know it, and the
//! matching state-machine transition is applied.  Iteration order does not
//! matter: each slug's transition depends only on its own three inputs.

use vstd::prelude::*;
use crate::enrollment::{
    events_views, spec_from_new, spec_from_new_emits, spec_from_new_events, spec_gc, spec_on_ended,
    spec_on_ended_emits, spec_on_ended_events, spec_on_updated, spec_on_updated_emits,
    spec_on_updated_events, EnrollmentChangeEvent, EnrollmentView, ExperimentEnrollment,
};
use crate::errors::NimbusError;
use crate::evaluator::{spec_verdict, Verdict};
use crate::ids::Uuid;
use crate::strutil::str_eq;
use crate::types::{
    AppContext, AvailableRandomizationUnits, AvailableRandomizationUnitsView, Experiment,
    ExperimentView,
};

verus! {

/// The client-side inputs the evaluator verdicts depend on.
pub struct EvolverCtx {
    pub nimbus_id: u128,
    pub aru: AvailableRandomizationUnitsView,
    pub app_id: Seq<char>,
}

/// The evaluator verdict for one experiment under this context.
pub open spec fn ctx_verdict(ctx: EvolverCtx, exp: ExperimentView) -> Verdict {
    spec_verdict(ctx.nimbus_id, ctx.aru, ctx.app_id, exp)
}

/// The views of a sequence of experiments.
pub open spec fn exps_views(s: Seq<Experiment>) -> Seq<ExperimentView> {
    s.map_values(|e: Experiment| e@)
}

/// The views of a sequence of enrollment records.
pub open spec fn enrs_views(s: Seq<ExperimentEnrollment>) -> Seq<EnrollmentView> {
    s.map_values(|e: ExperimentEnrollment| e@)
}

/// The views of a sequence of strings.
pub open spec fn strs_views(s: Seq<String>) -> Seq<Seq<char>> {
    s.map_values(|e: String| e@)
}

/// The view of an optional experiment reference.
pub open spec fn opt_exp_view(o: Option<&Experiment>) -> Option<ExperimentView> {
    match o {
        Some(e) => Some(e@),
        None => None,
    }
}

/// The view of an optional enrollment reference.
pub open spec fn opt_enr_view(o: Option<&ExperimentEnrollment>) -> Option<EnrollmentView> {
    match o {
        Some(e) => Some(e@),
        None => None,
    }
}

/// The view of an optional owned enrollment record.
pub open spec fn opt_rec_view(o: Option<ExperimentEnrollment>) -> Option<EnrollmentView> {
    match o {
        Some(e) => Some(e@),
        None => None,
    }
}

/// The first experiment with the given slug.
pub open spec fn find_exp(s: Seq<ExperimentView>, slug: Seq<char>) -> Option<ExperimentView>
    decreases s.len(),
{
    if s.len() == 0 {
        None
    } else if s[0].slug == slug {
        Some(s[0])
    } else {
        find_exp(s.skip(1), slug)
    }
}

/// The first enrollment record with the given slug.
pub open spec fn find_enr(s: Seq<EnrollmentView>, slug: Seq<char>) -> Option<EnrollmentView>
    decreases s.len(),
{
    if s.len() == 0 {
        None
    } else if s[0].slug == slug {
        Some(s[0])
    } else {
        find_enr(s.skip(1), slug)
    }
}

/// `find_exp` succeeds exactly when some element has the slug, and then
/// returns such an element.
pub proof fn lemma_find_exp(s: Seq<ExperimentView>, slug: Seq<char>)
    ensures
        find_exp(s, slug) is Some <==> exists|i: int| 0 <= i < s.len() && s[i].slug == slug,
        find_exp(s, slug) matches Some(e) ==> e.slug == slug && exists|i: int|
            0 <= i < s.len() && s[i] == e,
    decreases s.len(),
{
    if s.len() == 0 {
    } else if s[0].slug == slug {
        assert(s[0].slug == slug);
    } else {
        lemma_find_exp(s.skip(1), slug);
        if find_exp(s.skip(1), slug) is Some {
            let i = choose|i: int| 0 <= i < s.skip(1).len() && s.skip(1)[i].slug == slug;
            assert(s[i + 1].slug == slug);
            let e = find_exp(s.skip(1), slug)->Some_0;
            let j = choose|j: int| 0 <= j < s.skip(1).len() && s.skip(1)[j] == e;
            assert(s[j + 1] == e);
        } else {
            assert forall|i: int| 0 <= i < s.len() implies s[i].slug != slug by {
                if i > 0 {
                    assert(s.skip(1)[i - 1] == s[i]);
                }
            }
        }
    }
}

/// `find_enr` succeeds exactly when some element has the slug, and then
/// returns such an element.
pub proof fn lemma_find_enr(s: Seq<EnrollmentView>, slug: Seq<char>)
    ensures
        find_enr(s, slug) is Some <==> exists|i: int| 0 <= i < s.len() && s[i].slug == slug,
        find_enr(s, slug) matches Some(e) ==> e.slug == slug && exists|i: int|
            0 <= i < s.len() && s[i] == e,
    decreases s.len(),
{
    if s.len() == 0 {
    } else if s[0].slug == slug {
        assert(s[0].slug == slug);
    } else {
        lemma_find_enr(s.skip(1), slug);
        if find_enr(s.skip(1), slug) is Some {
            let i = choose|i: int| 0 <= i < s.skip(1).len() && s.skip(1)[i].slug == slug;
            assert(s[i + 1].slug == slug);
            let e = find_enr(s.skip(1), slug)->Some_0;
            let j = choose|j: int| 0 <= j < s.skip(1).len() && s.skip(1)[j] == e;
            assert(s[j + 1] == e);
        } else {
            assert forall|i: int| 0 <= i < s.len() implies s[i].slug != slug by {
                if i > 0 {
                    assert(s.skip(1)[i - 1] == s[i]);
                }
            }
        }
    }
}

/// Append a slug to the accumulator unless it is already present.
pub open spec fn push_unique(acc: Seq<Seq<char>>, s: Seq<char>) -> Seq<Seq<char>> {
    if acc.contains(s) {
        acc
    } else {
        acc.push(s)
    }
}

/// Fold the slugs of a sequence of experiments into the accumulator.
pub open spec fn add_exp_slugs(acc: Seq<Seq<char>>, s: Seq<ExperimentView>) -> Seq<Seq<char>>
    decreases s.len(),
{
    if s.len() == 0 {
        acc
    } else {
        add_exp_slugs(push_unique(acc, s[0].slug), s.skip(1))
    }
}

/// Fold the slugs of a sequence of enrollment records into the accumulator.
pub open spec fn add_enr_slugs(acc: Seq<Seq<char>>, s: Seq<EnrollmentView>) -> Seq<Seq<char>>
    decreases s.len(),
{
    if s.len() == 0 {
        acc
    } else {
        add_enr_slugs(push_unique(acc, s[0].slug), s.skip(1))
    }
}

/// The union of the slugs of the three inputs, each slug once, in order of
/// first appearance.
pub open spec fn union_slugs(
    pes: Seq<ExperimentView>,
    nes: Seq<ExperimentView>,
    ens: Seq<EnrollmentView>,
) -> Seq<Seq<char>> {
    add_enr_slugs(add_exp_slugs(add_exp_slugs(Seq::empty(), pes), nes), ens)
}

/// Whether a slug occurs in any of the three inputs.
pub open spec fn in_union(
    pes: Seq<ExperimentView>,
    nes: Seq<ExperimentView>,
    ens: Seq<EnrollmentView>,
    slug: Seq<char>,
) -> bool {
    find_exp(pes, slug) is Some || find_exp(nes, slug) is Some || find_enr(ens, slug) is Some
}

/// Folding experiment slugs preserves distinctness and adds exactly the
/// slugs of the sequence.
pub proof fn lemma_add_exp_slugs(acc: Seq<Seq<char>>, s: Seq<ExperimentView>)
    requires
        acc.no_duplicates(),
    ensures
        add_exp_slugs(acc, s).no_duplicates(),
        forall|x: Seq<char>| #[trigger]
            add_exp_slugs(acc, s).contains(x) <==> acc.contains(x) || exists|i: int|
                0 <= i < s.len() && s[i].slug == x,
    decreases s.len(),
{
    if s.len() == 0 {
    } else {
        let acc2 = push_unique(acc, s[0].slug);
        assert(acc2.no_duplicates());
        lemma_add_exp_slugs(acc2, s.skip(1));
        assert forall|x: Seq<char>| #[trigger]
            add_exp_slugs(acc, s).contains(x) implies acc.contains(x) || exists|i: int|
            0 <= i < s.len() && s[i].slug == x by {
            if acc2.contains(x) {
                if !acc.contains(x) {
                    assert(s[0].slug == x);
                }
            } else {
                let i = choose|i: int| 0 <= i < s.skip(1).len() && s.skip(1)[i].slug == x;
                assert(s[i + 1].slug == x);
            }
        }
        assert forall|x: Seq<char>|
            acc.contains(x) || exists|i: int|
                0 <= i < s.len() && s[i].slug == x implies #[trigger] add_exp_slugs(
            acc,
            s,
        ).contains(x) by {
            if acc.contains(x) {
                if !acc2.contains(x) {
                    assert(acc2 == acc.push(s[0].slug));
                    let i = choose|i: int| 0 <= i < acc.len() && acc[i] == x;
                    assert(acc2[i] == x);
                    assert(false);
                }
            } else {
                let i = choose|i: int| 0 <= i < s.len() && s[i].slug == x;
                if i == 0 {
                    if !acc2.contains(x) {
                        assert(acc2 == acc.push(s[0].slug));
                        assert(acc2[acc.len() as int] == x);
                        assert(false);
                    }
                } else {
                    assert(s.skip(1)[i - 1].slug == x);
                }
            }
        }
    }
}

/// Folding enrollment slugs preserves distinctness and adds exactly the
/// slugs of the sequence.
pub proof fn lemma_add_enr_slugs(acc: Seq<Seq<char>>, s: Seq<EnrollmentView>)
    requires
        acc.no_duplicates(),
    ensures
        add_enr_slugs(acc, s).no_duplicates(),
        forall|x: Seq<char>| #[trigger]
            add_enr_slugs(acc, s).contains(x) <==> acc.contains(x) || exists|i: int|
                0 <= i < s.len() && s[i].slug == x,
    decreases s.len(),
{
    if s.len() == 0 {
    } else {
        let acc2 = push_unique(acc, s[0].slug);
        assert(acc2.no_duplicates());
        lemma_add_enr_slugs(acc2, s.skip(1));
        assert forall|x: Seq<char>| #[trigger]
            add_enr_slugs(acc, s).contains(x) implies acc.contains(x) || exists|i: int|
            0 <= i < s.len() && s[i].slug == x by {
            if acc2.contains(x) {
                if !acc.contains(x) {
                    assert(s[0].slug == x);
                }
            } else {
                let i = choose|i: int| 0 <= i < s.skip(1).len() && s.skip(1)[i].slug == x;
                assert(s[i + 1].slug == x);
            }
        }
        assert forall|x: Seq<char>|
            acc.contains(x) || exists|i: int|
                0 <= i < s.len() && s[i].slug == x implies #[trigger] add_enr_slugs(
            acc,
            s,
        ).contains(x) by {
            if acc.contains(x) {
                if !acc2.contains(x) {
                    assert(acc2 == acc.push(s[0].slug));
                    let i = choose|i: int| 0 <= i < acc.len() && acc[i] == x;
                    assert(acc2[i] == x);
                    assert(false);
                }
            } else {
                let i = choose|i: int| 0 <= i < s.len() && s[i].slug == x;
                if i == 0 {
                    if !acc2.contains(x) {
                        assert(acc2 == acc.push(s[0].slug));
                        assert(acc2[acc.len() as int] == x);
                        assert(false);
                    }
                } else {
                    assert(s.skip(1)[i - 1].slug == x);
                }
            }
        }
    }
}

/// The slug union is distinct and holds exactly the slugs of the inputs.
pub proof fn lemma_union_slugs(
    pes: Seq<ExperimentView>,
    nes: Seq<ExperimentView>,
    ens: Seq<EnrollmentView>,
)
    ensures
        union_slugs(pes, nes, ens).no_duplicates(),
        forall|x: Seq<char>| #[trigger]
            union_slugs(pes, nes, ens).contains(x) <==> in_union(pes, nes, ens, x),
{
    let a1 = add_exp_slugs(Seq::empty(), pes);
    let a2 = add_exp_slugs(a1, nes);
    lemma_add_exp_slugs(Seq::empty(), pes);
    lemma_add_exp_slugs(a1, nes);
    lemma_add_enr_slugs(a2, ens);
    lemma_find_exp(pes, arbitrary());
    assert forall|x: Seq<char>| #[trigger]
        union_slugs(pes, nes, ens).contains(x) <==> in_union(pes, nes, ens, x) by {
        lemma_find_exp(pes, x);
        lemma_find_exp(nes, x);
        lemma_find_enr(ens, x);
    }
}

/// Whether the slug classification is inconsistent: a new experiment whose
/// slug already has an enrollment record, or a stored experiment without
/// one.
pub open spec fn spec_step_is_err(
    pe: Option<ExperimentView>,
    ne: Option<ExperimentView>,
    en: Option<EnrollmentView>,
) -> bool {
    match (pe, ne, en) {
        (None, Some(_), Some(_)) => true,
        (Some(_), None, None) => true,
        (Some(_), Some(_), None) => true,
        _ => false,
    }
}

/// The record (if any) that one slug's transition produces.
pub open spec fn spec_step(
    ctx: EvolverCtx,
    part: bool,
    now: u64,
    pe: Option<ExperimentView>,
    ne: Option<ExperimentView>,
    en: Option<EnrollmentView>,
    fresh: u128,
) -> Option<EnrollmentView> {
    match (pe, ne, en) {
        (None, Some(x), None) => Some(spec_from_new(part, x, ctx_verdict(ctx, x), fresh)),
        (Some(_), None, Some(e)) => spec_on_ended(e, now),
        (Some(_), Some(x), Some(e)) => Some(
            spec_on_updated(e, part, x, ctx_verdict(ctx, x), fresh),
        ),
        (None, None, Some(e)) => spec_gc(e, now),
        _ => None,
    }
}

/// Whether one slug's transition keeps a record.
pub open spec fn spec_step_keeps(
    ctx: EvolverCtx,
    part: bool,
    now: u64,
    pe: Option<ExperimentView>,
    ne: Option<ExperimentView>,
    en: Option<EnrollmentView>,
) -> bool {
    match (pe, ne, en) {
        (None, Some(_), None) => true,
        (Some(_), None, Some(e)) => spec_on_ended_emits(e),
        (Some(_), Some(_), Some(_)) => true,
        (None, None, Some(e)) => spec_gc(e, now) is Some,
        _ => false,
    }
}

/// Whether one slug's transition emits an event.
pub open spec fn spec_step_emits(
    ctx: EvolverCtx,
    part: bool,
    now: u64,
    pe: Option<ExperimentView>,
    ne: Option<ExperimentView>,
    en: Option<EnrollmentView>,
) -> bool {
    match (pe, ne, en) {
        (None, Some(x), None) => spec_from_new_emits(part, x, ctx_verdict(ctx, x)),
        (Some(_), None, Some(e)) => spec_on_ended_emits(e),
        (Some(_), Some(x), Some(e)) => spec_on_updated_emits(e, part, x, ctx_verdict(ctx, x)),
        _ => false,
    }
}

/// The events one slug's transition appends.
pub open spec fn spec_step_events(
    ctx: EvolverCtx,
    part: bool,
    now: u64,
    pe: Option<ExperimentView>,
    ne: Option<ExperimentView>,
    en: Option<EnrollmentView>,
    fresh: u128,
) -> Seq<crate::enrollment::EventView> {
    match (pe, ne, en) {
        (None, Some(x), None) => spec_from_new_events(part, x, ctx_verdict(ctx, x), fresh),
        (Some(_), None, Some(e)) => spec_on_ended_events(e, now),
        (Some(_), Some(x), Some(e)) => spec_on_updated_events(
            e,
            part,
            x,
            ctx_verdict(ctx, x),
            fresh,
        ),
        _ => Seq::empty(),
    }
}

/// Whether `ev` is the event of some slug's transition.
pub open spec fn is_step_event(
    ctx: EvolverCtx,
    part: bool,
    now: u64,
    pes: Seq<ExperimentView>,
    nes: Seq<ExperimentView>,
    ens: Seq<EnrollmentView>,
    ev: crate::enrollment::EventView,
) -> bool {
    exists|slug: Seq<char>, fresh: u128|
        #![auto]
        in_union(pes, nes, ens, slug) && spec_step_events(
            ctx,
            part,
            now,
            find_exp(pes, slug),
            find_exp(nes, slug),
            find_enr(ens, slug),
            fresh,
        ) == seq![ev]
}

/// A transition keeps a record exactly when its step value is `Some`, and
/// appends one event exactly when it emits.
pub proof fn lemma_step_shape(
    ctx: EvolverCtx,
    part: bool,
    now: u64,
    pe: Option<ExperimentView>,
    ne: Option<ExperimentView>,
    en: Option<EnrollmentView>,
    fresh: u128,
)
    ensures
        spec_step(ctx, part, now, pe, ne, en, fresh) is Some <==> spec_step_keeps(
            ctx,
            part,
            now,
            pe,
            ne,
            en,
        ),
        spec_step_events(ctx, part, now, pe, ne, en, fresh).len() == if spec_step_emits(
            ctx,
            part,
            now,
            pe,
            ne,
            en,
        ) {
            1int
        } else {
            0int
        },
{
}

/// Whether a sequence of strings holds the given characters.
fn vec_contains_str(v: &Vec<String>, s: &str) -> (r: bool)
    ensures
        r == strs_views(v@).contains(s@),
{
    let mut i: usize = 0;
    while i < v.len()
        invariant
            0 <= i <= v@.len(),
            forall|k: int| 0 <= k < i ==> v@[k]@ != s@,
        decreases v@.len() - i,
    {
        if str_eq(v[i].as_str(), s) {
            assert(strs_views(v@)[i as int] == s@);
            return true;
        }
        i += 1;
    }
    proof {
        assert forall|k: int| 0 <= k < strs_views(v@).len() implies strs_views(v@)[k] != s@ by {
            assert(strs_views(v@)[k] == v@[k]@);
        }
    }
    false
}

/// Append a slug unless it is already present.
fn push_unique_exec(u: &mut Vec<String>, slug: &String)
    ensures
        strs_views(final(u)@) == push_unique(strs_views(old(u)@), slug@),
{
    if !vec_contains_str(u, slug.as_str()) {
        let ghost before = u@;
        u.push(slug.clone());
        proof {
            assert(strs_views(u@) =~= strs_views(before).push(slug@));
        }
    }
}

/// The union of the slugs of the three inputs, in order of first
/// appearance, each slug once.
fn union_slugs_exec(
    existing_experiments: &[Experiment],
    updated_experiments: &[Experiment],
    existing_enrollments: &[ExperimentEnrollment],
) -> (u: Vec<String>)
    ensures
        strs_views(u@) == union_slugs(
            exps_views(existing_experiments@),
            exps_views(updated_experiments@),
            enrs_views(existing_enrollments@),
        ),
{
    let ghost pes = exps_views(existing_experiments@);
    let ghost nes = exps_views(updated_experiments@);
    let ghost ens = enrs_views(existing_enrollments@);
    let mut u: Vec<String> = Vec::new();
    let mut i: usize = 0;
    proof {
        assert(strs_views(u@) =~= Seq::<Seq<char>>::empty());
        assert(pes.skip(0) =~= pes);
    }
    while i < existing_experiments.len()
        invariant
            pes == exps_views(existing_experiments@),
            0 <= i <= pes.len(),
            add_exp_slugs(strs_views(u@), pes.skip(i as int)) == add_exp_slugs(
                Seq::empty(),
                pes,
            ),
        decreases pes.len() - i,
    {
        proof {
            assert(pes.skip(i as int)[0] == pes[i as int]);
            assert(pes.skip(i as int).skip(1) =~= pes.skip(i as int + 1));
            assert(pes[i as int] == existing_experiments@[i as int]@);
        }
        push_unique_exec(&mut u, &existing_experiments[i].slug);
        i += 1;
    }
    proof {
        assert(pes.skip(pes.len() as int) =~= Seq::<ExperimentView>::empty());
        assert(nes.skip(0) =~= nes);
    }
    let mut i: usize = 0;
    while i < updated_experiments.len()
        invariant
            pes == exps_views(existing_experiments@),
            nes == exps_views(updated_experiments@),
            0 <= i <= nes.len(),
            add_exp_slugs(strs_views(u@), nes.skip(i as int)) == add_exp_slugs(
                add_exp_slugs(Seq::empty(), pes),
                nes,
            ),
        decreases nes.len() - i,
    {
        proof {
            assert(nes.skip(i as int)[0] == nes[i as int]);
            assert(nes.skip(i as int).skip(1) =~= nes.skip(i as int + 1));
            assert(nes[i as int] == updated_experiments@[i as int]@);
        }
        push_unique_exec(&mut u, &updated_experiments[i].slug);
        i += 1;
    }
    proof {
        assert(nes.skip(nes.len() as int) =~= Seq::<ExperimentView>::empty());
        assert(ens.skip(0) =~= ens);
    }
    let mut i: usize = 0;
    while i < existing_enrollments.len()
        invariant
            pes == exps_views(existing_experiments@),
            nes == exps_views(updated_experiments@),
            ens == enrs_views(existing_enrollments@),
            0 <= i <= ens.len(),
            add_enr_slugs(strs_views(u@), ens.skip(i as int)) == add_enr_slugs(
                add_exp_slugs(add_exp_slugs(Seq::empty(), pes), nes),
                ens,
            ),
        decreases ens.len() - i,
    {
        proof {
            assert(ens.skip(i as int)[0] == ens[i as int]);
            assert(ens.skip(i as int).skip(1) =~= ens.skip(i as int + 1));
            assert(ens[i as int] == existing_enrollments@[i as int]@);
        }
        push_unique_exec(&mut u, &existing_enrollments[i].slug);
        i += 1;
    }
    proof {
        assert(ens.skip(ens.len() as int) =~= Seq::<EnrollmentView>::empty());
    }
    u
}

/// The first experiment with the given slug, if any.
pub fn find_experiment<'e>(exps: &'e [Experiment], slug: &str) -> (r: Option<&'e Experiment>)
    ensures
        opt_exp_view(r) == find_exp(exps_views(exps@), slug@),
{
    let ghost s = exps_views(exps@);
    let mut i: usize = 0;
    proof {
        assert(s.skip(0) =~= s);
    }
    while i < exps.len()
        invariant
            s == exps_views(exps@),
            0 <= i <= s.len(),
            find_exp(s, slug@) == find_exp(s.skip(i as int), slug@),
        decreases s.len() - i,
    {
        proof {
            assert(s.skip(i as int)[0] == s[i as int]);
            assert(s.skip(i as int).skip(1) =~= s.skip(i as int + 1));
        }
        if str_eq(exps[i].slug.as_str(), slug) {
            return Some(&exps[i]);
        }
        i += 1;
    }
    proof {
        assert(s.skip(s.len() as int) =~= Seq::<ExperimentView>::empty());
    }
    None
}

/// The first enrollment record with the given slug, if any.
pub fn find_enrollment<'e>(
    enrs: &'e [ExperimentEnrollment],
    slug: &str,
) -> (r: Option<&'e ExperimentEnrollment>)
    ensures
        opt_enr_view(r) == find_enr(enrs_views(enrs@), slug@),
{
    let ghost s = enrs_views(enrs@);
    let mut i: usize = 0;
    proof {
        assert(s.skip(0) =~= s);
    }
    while i < enrs.len()
        invariant
            s == enrs_views(enrs@),
            0 <= i <= s.len(),
            find_enr(s, slug@) == find_enr(s.skip(i as int), slug@),
        decreases s.len() - i,
    {
        proof {
            assert(s.skip(i as int)[0] == s[i as int]);
            assert(s.skip(i as int).skip(1) =~= s.skip(i as int + 1));
        }
        if str_eq(enrs[i].slug.as_str(), slug) {
            return Some(&enrs[i]);
        }
        i += 1;
    }
    proof {
        assert(s.skip(s.len() as int) =~= Seq::<EnrollmentView>::empty());
    }
    None
}

/// How many of the given slugs' transitions emit an event.
pub open spec fn count_emitting(
    ctx: EvolverCtx,
    part: bool,
    now: u64,
    pes: Seq<ExperimentView>,
    nes: Seq<ExperimentView>,
    ens: Seq<EnrollmentView>,
    slugs: Seq<Seq<char>>,
) -> int
    decreases slugs.len(),
{
    if slugs.len() == 0 {
        0
    } else {
        count_emitting(ctx, part, now, pes, nes, ens, slugs.drop_last()) + if spec_step_emits(
            ctx,
            part,
            now,
            find_exp(pes, slugs.last()),
            find_exp(nes, slugs.last()),
            find_enr(ens, slugs.last()),
        ) {
            1int
        } else {
            0int
        }
    }
}

/// Counting emitting slugs: one slug more counts one more when it emits.
pub proof fn lemma_count_take_step(
    ctx: EvolverCtx,
    part: bool,
    now: u64,
    pes: Seq<ExperimentView>,
    nes: Seq<ExperimentView>,
    ens: Seq<EnrollmentView>,
    slugs: Seq<Seq<char>>,
    j: int,
)
    requires
        0 <= j < slugs.len(),
    ensures
        count_emitting(ctx, part, now, pes, nes, ens, slugs.take(j + 1)) == count_emitting(
            ctx,
            part,
            now,
            pes,
            nes,
            ens,
            slugs.take(j),
        ) + if spec_step_emits(
            ctx,
            part,
            now,
            find_exp(pes, slugs[j]),
            find_exp(nes, slugs[j]),
            find_enr(ens, slugs[j]),
        ) {
            1int
        } else {
            0int
        },
{
    assert(slugs.take(j + 1).drop_last() =~= slugs.take(j));
    assert(slugs.take(j + 1).last() == slugs[j]);
}

/// Counting emitting slugs is monotone in the prefix length.
pub proof fn lemma_count_monotonic(
    ctx: EvolverCtx,
    part: bool,
    now: u64,
    pes: Seq<ExperimentView>,
    nes: Seq<ExperimentView>,
    ens: Seq<EnrollmentView>,
    slugs: Seq<Seq<char>>,
    a: int,
    b: int,
)
    requires
        0 <= a <= b <= slugs.len(),
    ensures
        count_emitting(ctx, part, now, pes, nes, ens, slugs.take(a)) <= count_emitting(
            ctx,
            part,
            now,
            pes,
            nes,
            ens,
            slugs.take(b),
        ),
    decreases b - a,
{
    if a < b {
        lemma_count_monotonic(ctx, part, now, pes, nes, ens, slugs, a, b - 1);
        lemma_count_take_step(ctx, part, now, pes, nes, ens, slugs, b - 1);
    }
}

/// Where in the event list the event of the `j`-th union slug stands, if
/// that slug's transition emits one: at the index given by the number of
/// emitting slugs before it.
pub open spec fn event_for_slug_at(
    ctx: EvolverCtx,
    part: bool,
    now: u64,
    pes: Seq<ExperimentView>,
    nes: Seq<ExperimentView>,
    ens: Seq<EnrollmentView>,
    j: int,
    evs: Seq<crate::enrollment::EventView>,
) -> bool {
    let slugs = union_slugs(pes, nes, ens);
    spec_step_emits(
        ctx,
        part,
        now,
        find_exp(pes, slugs[j]),
        find_exp(nes, slugs[j]),
        find_enr(ens, slugs[j]),
    ) ==> ({
        let k = count_emitting(ctx, part, now, pes, nes, ens, slugs.take(j));
        &&& 0 <= k < evs.len()
        &&& exists|fresh: u128|
            #![auto]
            spec_step_events(
                ctx,
                part,
                now,
                find_exp(pes, slugs[j]),
                find_exp(nes, slugs[j]),
                find_enr(ens, slugs[j]),
                fresh,
            ) == seq![evs[k]]
    })
}

/// Appending the events of the next union slug keeps every earlier slug's
/// event at its position and puts the new slug's event (if any) at the end.
proof fn lemma_event_positions_extend(
    ctx: EvolverCtx,
    part: bool,
    now: u64,
    pes: Seq<ExperimentView>,
    nes: Seq<ExperimentView>,
    ens: Seq<EnrollmentView>,
    idx: int,
    events_before: Seq<crate::enrollment::EventView>,
    events_now: Seq<crate::enrollment::EventView>,
    fresh: u128,
)
    requires
        0 <= idx < union_slugs(pes, nes, ens).len(),
        events_before.len() == count_emitting(
            ctx,
            part,
            now,
            pes,
            nes,
            ens,
            union_slugs(pes, nes, ens).take(idx),
        ),
        events_now == events_before + spec_step_events(
            ctx,
            part,
            now,
            find_exp(pes, union_slugs(pes, nes, ens)[idx]),
            find_exp(nes, union_slugs(pes, nes, ens)[idx]),
            find_enr(ens, union_slugs(pes, nes, ens)[idx]),
            fresh,
        ),
        forall|j: int|
            0 <= j < idx ==> #[trigger] event_for_slug_at(
                ctx,
                part,
                now,
                pes,
                nes,
                ens,
                j,
                events_before,
            ),
    ensures
        forall|j: int|
            0 <= j <= idx ==> #[trigger] event_for_slug_at(
                ctx,
                part,
                now,
                pes,
                nes,
                ens,
                j,
                events_now,
            ),
{
    let uv = union_slugs(pes, nes, ens);
    lemma_step_shape(
        ctx,
        part,
        now,
        find_exp(pes, uv[idx]),
        find_exp(nes, uv[idx]),
        find_enr(ens, uv[idx]),
        fresh,
    );
    assert forall|j: int|
        0 <= j <= idx implies #[trigger] event_for_slug_at(
        ctx,
        part,
        now,
        pes,
        nes,
        ens,
        j,
        events_now,
    ) by {
        lemma_count_take_step(ctx, part, now, pes, nes, ens, uv, j);
        if spec_step_emits(
            ctx,
            part,
            now,
            find_exp(pes, uv[j]),
            find_exp(nes, uv[j]),
            find_enr(ens, uv[j]),
        ) {
            let k = count_emitting(ctx, part, now, pes, nes, ens, uv.take(j));
            if j < idx {
                assert(event_for_slug_at(ctx, part, now, pes, nes, ens, j, events_before));
                lemma_count_monotonic(ctx, part, now, pes, nes, ens, uv, j + 1, idx);
                assert(k < events_before.len());
                assert(events_now[k] == events_before[k]);
                let f0 = choose|fresh0: u128|
                    #![auto]
                    spec_step_events(
                        ctx,
                        part,
                        now,
                        find_exp(pes, uv[j]),
                        find_exp(nes, uv[j]),
                        find_enr(ens, uv[j]),
                        fresh0,
                    ) == seq![events_before[k]];
                assert(spec_step_events(
                    ctx,
                    part,
                    now,
                    find_exp(pes, uv[j]),
                    find_exp(nes, uv[j]),
                    find_enr(ens, uv[j]),
                    f0,
                ) == seq![events_now[k]]);
            } else {
                assert(k == events_before.len());
                assert(spec_step_events(
                    ctx,
                    part,
                    now,
                    find_exp(pes, uv[idx]),
                    find_exp(nes, uv[idx]),
                    find_enr(ens, uv[idx]),
                    fresh,
                ) =~= seq![events_now[k]]);
            }
        }
    }
}

/// Evolves the enrollment records of one client against one update from the
/// server.  The client-side inputs to the evaluator, and the current time,
/// are fixed for the whole update.
pub struct EnrollmentsEvolver<'a> {
    pub nimbus_id: &'a Uuid,
    pub available_randomization_units: &'a AvailableRandomizationUnits,
    pub app_context: &'a AppContext,
    /// The current time in unix seconds, sampled once per update.
    pub now: u64,
}

impl<'a> EnrollmentsEvolver<'a> {
    /// The client-side inputs the evaluator verdicts depend on.
    pub open spec fn ctx(&self) -> EvolverCtx {
        EvolverCtx {
            nimbus_id: self.nimbus_id.bits,
            aru: self.available_randomization_units@,
            app_id: self.app_context.app_id@,
        }
    }

    /// An evolver over the given client-side inputs and clock sample.
    pub fn new(
        nimbus_id: &'a Uuid,
        available_randomization_units: &'a AvailableRandomizationUnits,
        app_context: &'a AppContext,
        now: u64,
    ) -> (r: Self)
        ensures
            r.nimbus_id == nimbus_id,
            r.available_randomization_units == available_randomization_units,
            r.app_context == app_context,
            r.now == now,
    {
        Self { nimbus_id, available_randomization_units, app_context, now }
    }

    /// Evolve a single slug's enrollment record from the three ways the
    /// slug may be known: the experiments previously stored, the update,
    /// and the prior enrollment record.
    pub fn evolve_enrollment(
        &self,
        is_user_participating: bool,
        existing_experiment: Option<&Experiment>,
        updated_experiment: Option<&Experiment>,
        existing_enrollment: Option<&ExperimentEnrollment>,
        out_enrollment_events: &mut Vec<EnrollmentChangeEvent>,
    ) -> (r: Result<Option<ExperimentEnrollment>, NimbusError>)
        requires
            existing_experiment is Some || updated_experiment is Some || existing_enrollment
                is Some,
        ensures
            ({
                let pe = opt_exp_view(existing_experiment);
                let ne = opt_exp_view(updated_experiment);
                let en = opt_enr_view(existing_enrollment);
                &&& (r is Err <==> spec_step_is_err(pe, ne, en))
                &&& (r matches Err(e) ==> (final(out_enrollment_events)@ == old(
                    out_enrollment_events,
                )@ && (e matches NimbusError::InternalError(m) && ((pe is None && en is Some)
                    ==> m@ == "New experiment but enrollment already exists."@) && ((pe is Some
                    && en is None)
                    ==> m@ == "Experiment in the db did not have an associated enrollment record."@))))
                &&& (r matches Ok(out) ==> exists|fresh: u128|
                    #![auto]
                    opt_rec_view(out) == spec_step(
                        self.ctx(),
                        is_user_participating,
                        self.now,
                        pe,
                        ne,
                        en,
                        fresh,
                    ) && events_views(final(out_enrollment_events)@) == events_views(
                        old(out_enrollment_events)@,
                    ) + spec_step_events(
                        self.ctx(),
                        is_user_participating,
                        self.now,
                        pe,
                        ne,
                        en,
                        fresh,
                    ))
            }),
    {
        let ghost pe = opt_exp_view(existing_experiment);
        let ghost ne = opt_exp_view(updated_experiment);
        let ghost en = opt_enr_view(existing_enrollment);
        match (existing_experiment, updated_experiment, existing_enrollment) {
            // New experiment.
            (None, Some(experiment), None) => {
                let rec = ExperimentEnrollment::from_new_experiment(
                    is_user_participating,
                    self.nimbus_id,
                    self.available_randomization_units,
                    self.app_context,
                    experiment,
                    out_enrollment_events,
                );
                proof {
                    let v = spec_verdict(
                        self.nimbus_id.bits,
                        self.available_randomization_units@,
                        self.app_context.app_id@,
                        experiment@,
                    );
                    let fresh = choose|fresh: u128|
                        #![auto]
                        rec@ == spec_from_new(is_user_participating, experiment@, v, fresh)
                            && events_views(out_enrollment_events@) == events_views(
                            old(out_enrollment_events)@,
                        ) + spec_from_new_events(is_user_participating, experiment@, v, fresh);
                    assert(opt_rec_view(Some(rec)) == spec_step(
                        self.ctx(),
                        is_user_participating,
                        self.now,
                        pe,
                        ne,
                        en,
                        fresh,
                    ));
                }
                Ok(Some(rec))
            },
            // Experiment deleted remotely.
            (Some(_), None, Some(enrollment)) => {
                let rec = enrollment.on_experiment_ended(self.now, out_enrollment_events);
                proof {
                    assert(opt_rec_view(rec) == spec_step(
                        self.ctx(),
                        is_user_participating,
                        self.now,
                        pe,
                        ne,
                        en,
                        0,
                    ));
                }
                Ok(rec)
            },
            // Known experiment.
            (Some(_), Some(experiment), Some(enrollment)) => {
                let rec = enrollment.on_experiment_updated(
                    is_user_participating,
                    self.nimbus_id,
                    self.available_randomization_units,
                    self.app_context,
                    experiment,
                    out_enrollment_events,
                );
                proof {
                    let v = spec_verdict(
                        self.nimbus_id.bits,
                        self.available_randomization_units@,
                        self.app_context.app_id@,
                        experiment@,
                    );
                    let fresh = choose|fresh: u128|
                        #![auto]
                        rec@ == spec_on_updated(
                            enrollment@,
                            is_user_participating,
                            experiment@,
                            v,
                            fresh,
                        ) && events_views(out_enrollment_events@) == events_views(
                            old(out_enrollment_events)@,
                        ) + spec_on_updated_events(
                            enrollment@,
                            is_user_participating,
                            experiment@,
                            v,
                            fresh,
                        );
                    assert(opt_rec_view(Some(rec)) == spec_step(
                        self.ctx(),
                        is_user_participating,
                        self.now,
                        pe,
                        ne,
                        en,
                        fresh,
                    ));
                }
                Ok(Some(rec))
            },
            // The experiment is long gone: garbage-collect the record.
            (None, None, Some(enrollment)) => {
                let rec = enrollment.maybe_garbage_collect(self.now);
                proof {
                    crate::enrollment::lemma_events_same(out_enrollment_events@);
                    assert(opt_rec_view(rec) == spec_step(
                        self.ctx(),
                        is_user_participating,
                        self.now,
                        pe,
                        ne,
                        en,
                        0,
                    ));
                }
                Ok(rec)
            },
            (None, Some(_), Some(_)) => Err(
                NimbusError::InternalError("New experiment but enrollment already exists."),
            ),
            (Some(_), None, None) | (Some(_), Some(_), None) => Err(
                NimbusError::InternalError(
                    "Experiment in the db did not have an associated enrollment record.",
                ),
            ),
            (None, None, None) => {
                proof {
                    assert(false);
                }
                Err(NimbusError::InternalError("Experiment neither seen nor enrolled."))
            },
        }
    }

    /// Evolve and calculate the new set of enrollment records, using the
    /// previous and current state of experiments and the prior enrollment
    /// records.  The result pairs the updated records with the change
    /// events of every transition, exactly one event per event-producing
    /// transition.
    #[verifier::rlimit(60)]
    pub fn evolve_enrollments(
        &self,
        is_user_participating: bool,
        existing_experiments: &[Experiment],
        updated_experiments: &[Experiment],
        existing_enrollments: &[ExperimentEnrollment],
    ) -> (r: Result<(Vec<ExperimentEnrollment>, Vec<EnrollmentChangeEvent>), NimbusError>)
        ensures
            ({
                let pes = exps_views(existing_experiments@);
                let nes = exps_views(updated_experiments@);
                let ens = enrs_views(existing_enrollments@);
                &&& (r is Err <==> exists|slug: Seq<char>|
                    #[trigger] in_union(pes, nes, ens, slug) && spec_step_is_err(
                        find_exp(pes, slug),
                        find_exp(nes, slug),
                        find_enr(ens, slug),
                    ))
                &&& (r matches Err(e) ==> e is InternalError)
                &&& (r matches Ok(out) ==> ({
                    let recs = enrs_views(out.0@);
                    &&& forall|slug: Seq<char>|
                        #[trigger] in_union(pes, nes, ens, slug) ==> (find_enr(recs, slug) is Some
                            <==> spec_step_keeps(
                            self.ctx(),
                            is_user_participating,
                            self.now,
                            find_exp(pes, slug),
                            find_exp(nes, slug),
                            find_enr(ens, slug),
                        ))
                    &&& forall|slug: Seq<char>|
                        #[trigger] in_union(pes, nes, ens, slug) ==> (find_enr(recs, slug) matches Some(rec)
                            ==> exists|fresh: u128|
                            #![auto]
                            spec_step(
                                self.ctx(),
                                is_user_participating,
                                self.now,
                                find_exp(pes, slug),
                                find_exp(nes, slug),
                                find_enr(ens, slug),
                                fresh,
                            ) == Some(rec))
                    &&& forall|i: int|
                        0 <= i < recs.len() ==> in_union(pes, nes, ens, #[trigger] recs[i].slug)
                    &&& forall|i: int, j: int|
                        0 <= i < j < recs.len() ==> #[trigger] recs[i].slug != #[trigger] recs[j].slug
                    &&& out.1@.len() == count_emitting(
                        self.ctx(),
                        is_user_participating,
                        self.now,
                        pes,
                        nes,
                        ens,
                        union_slugs(pes, nes, ens),
                    )
                    &&& forall|k: int|
                        0 <= k < out.1@.len() ==> is_step_event(
                            self.ctx(),
                            is_user_participating,
                            self.now,
                            pes,
                            nes,
                            ens,
                            #[trigger] events_views(out.1@)[k],
                        )
                    &&& forall|j: int|
                        0 <= j < union_slugs(pes, nes, ens).len() ==> #[trigger] event_for_slug_at(
                            self.ctx(),
                            is_user_participating,
                            self.now,
                            pes,
                            nes,
                            ens,
                            j,
                            events_views(out.1@),
                        )
                }))
            }),
    {
        let ghost pes = exps_views(existing_experiments@);
        let ghost nes = exps_views(updated_experiments@);
        let ghost ens = enrs_views(existing_enrollments@);
        let ghost ctx = self.ctx();
        proof {
            lemma_union_slugs(pes, nes, ens);
        }
        let union = union_slugs_exec(
            existing_experiments,
            updated_experiments,
            existing_enrollments,
        );
        let ghost uv = strs_views(union@);
        let mut enrollment_events: Vec<EnrollmentChangeEvent> = Vec::new();
        let mut updated_enrollments: Vec<ExperimentEnrollment> = Vec::new();
        let mut idx: usize = 0;
        proof {
            assert(uv.take(0) =~= Seq::<Seq<char>>::empty());
            assert(enrs_views(updated_enrollments@) =~= Seq::<EnrollmentView>::empty());
            assert(events_views(enrollment_events@) =~= Seq::<
                crate::enrollment::EventView,
            >::empty());
        }
        while idx < union.len()
            invariant
                pes == exps_views(existing_experiments@),
                nes == exps_views(updated_experiments@),
                ens == enrs_views(existing_enrollments@),
                ctx == self.ctx(),
                uv == strs_views(union@),
                uv == union_slugs(pes, nes, ens),
                uv.no_duplicates(),
                forall|x: Seq<char>| #[trigger] uv.contains(x) <==> in_union(pes, nes, ens, x),
                0 <= idx <= uv.len(),
                forall|j: int|
                    0 <= j < idx ==> !spec_step_is_err(
                        find_exp(pes, #[trigger] uv[j]),
                        find_exp(nes, uv[j]),
                        find_enr(ens, uv[j]),
                    ),
                forall|j: int|
                    0 <= j < idx ==> (find_enr(enrs_views(updated_enrollments@), #[trigger] uv[j])
                        is Some <==> spec_step_keeps(
                        ctx,
                        is_user_participating,
                        self.now,
                        find_exp(pes, uv[j]),
                        find_exp(nes, uv[j]),
                        find_enr(ens, uv[j]),
                    )),
                forall|j: int|
                    0 <= j < idx ==> (find_enr(enrs_views(updated_enrollments@), #[trigger] uv[j])
                        matches Some(rec) ==> exists|fresh: u128|
                        #![auto]
                        spec_step(
                            ctx,
                            is_user_participating,
                            self.now,
                            find_exp(pes, uv[j]),
                            find_exp(nes, uv[j]),
                            find_enr(ens, uv[j]),
                            fresh,
                        ) == Some(rec)),
                forall|i: int|
                    0 <= i < updated_enrollments@.len() ==> exists|j: int|
                        0 <= j < idx && #[trigger] enrs_views(updated_enrollments@)[i].slug
                            == #[trigger] uv[j],
                forall|i: int, j: int|
                    0 <= i < j < updated_enrollments@.len() ==> enrs_views(
                        updated_enrollments@,
                    )[i].slug != enrs_views(updated_enrollments@)[j].slug,
                enrollment_events@.len() == count_emitting(
                    ctx,
                    is_user_participating,
                    self.now,
                    pes,
                    nes,
                    ens,
                    uv.take(idx as int),
                ),
                forall|k: int|
                    0 <= k < enrollment_events@.len() ==> is_step_event(
                        ctx,
                        is_user_participating,
                        self.now,
                        pes,
                        nes,
                        ens,
                        #[trigger] events_views(enrollment_events@)[k],
                    ),
                forall|j: int|
                    0 <= j < idx ==> #[trigger] event_for_slug_at(
                        ctx,
                        is_user_participating,
                        self.now,
                        pes,
                        nes,
                        ens,
                        j,
                        events_views(enrollment_events@),
                    ),
            decreases uv.len() - idx,
        {
            let slug: &String = &union[idx];
            let ghost sv = slug@;
            proof {
                assert(uv[idx as int] == sv);
                assert(uv.contains(sv));
            }
            let existing_experiment = find_experiment(existing_experiments, slug.as_str());
            let updated_experiment = find_experiment(updated_experiments, slug.as_str());
            let existing_enrollment = find_enrollment(existing_enrollments, slug.as_str());
            proof {
                lemma_find_exp(pes, sv);
                lemma_find_exp(nes, sv);
                lemma_find_enr(ens, sv);
            }
            let ghost events_before = enrollment_events@;
            let ghost recs_before = enrs_views(updated_enrollments@);
            let step = self.evolve_enrollment(
                is_user_participating,
                existing_experiment,
                updated_experiment,
                existing_enrollment,
                &mut enrollment_events,
            );
            let updated_enrollment = match step {
                Ok(u) => u,
                Err(e) => {
                    return Err(e);
                },
            };
            proof {
                let pe_s = find_exp(pes, sv);
                let ne_s = find_exp(nes, sv);
                let en_s = find_enr(ens, sv);
                let fresh = choose|fresh: u128|
                    #![auto]
                    opt_rec_view(updated_enrollment) == spec_step(
                        ctx,
                        is_user_participating,
                        self.now,
                        pe_s,
                        ne_s,
                        en_s,
                        fresh,
                    ) && events_views(enrollment_events@) == events_views(events_before)
                        + spec_step_events(
                        ctx,
                        is_user_participating,
                        self.now,
                        pe_s,
                        ne_s,
                        en_s,
                        fresh,
                    );
                lemma_step_shape(ctx, is_user_participating, self.now, pe_s, ne_s, en_s, fresh);
                assert(uv.take(idx as int + 1).drop_last() =~= uv.take(idx as int));
                assert(uv.take(idx as int + 1).last() == sv);
                assert(events_views(enrollment_events@).len() == enrollment_events@.len());
                assert(events_views(events_before).len() == events_before.len());
                assert forall|k: int|
                    0 <= k < enrollment_events@.len() implies is_step_event(
                    ctx,
                    is_user_participating,
                    self.now,
                    pes,
                    nes,
                    ens,
                    #[trigger] events_views(enrollment_events@)[k],
                ) by {
                    if k < events_before.len() {
                        assert(events_views(enrollment_events@)[k] == events_views(
                            events_before,
                        )[k]);
                    } else {
                        assert(spec_step_events(
                            ctx,
                            is_user_participating,
                            self.now,
                            pe_s,
                            ne_s,
                            en_s,
                            fresh,
                        ) =~= seq![events_views(enrollment_events@)[k]]);
                    }
                }
                lemma_event_positions_extend(
                    ctx,
                    is_user_participating,
                    self.now,
                    pes,
                    nes,
                    ens,
                    idx as int,
                    events_views(events_before),
                    events_views(enrollment_events@),
                    fresh,
                );
            }
            match updated_enrollment {
                Some(enrollment) => {
                    let ghost rec = enrollment@;
                    proof {
                        // The new record's slug is this slug, which is not
                        // yet among the collected records.
                        assert(rec.slug == sv);
                        lemma_find_enr(recs_before, sv);
                        if find_enr(recs_before, sv) is Some {
                            let i = choose|i: int|
                                0 <= i < recs_before.len() && recs_before[i].slug == sv;
                            let j = choose|j: int|
                                0 <= j < idx && recs_before[i].slug == uv[j];
                            assert(uv[j] == uv[idx as int]);
                            assert(false);
                        }
                        assert(enrs_views(updated_enrollments@.push(enrollment)) =~= recs_before
                            .push(rec));
                    }
                    updated_enrollments.push(enrollment);
                    proof {
                        lemma_find_enr_push(recs_before, rec);
                    }
                },
                None => {
                    proof {
                        lemma_find_enr(recs_before, sv);
                        if find_enr(recs_before, sv) is Some {
                            let i = choose|i: int|
                                0 <= i < recs_before.len() && recs_before[i].slug == sv;
                            let j = choose|j: int|
                                0 <= j < idx && recs_before[i].slug == uv[j];
                            assert(uv[j] == uv[idx as int]);
                            assert(false);
                        }
                    }
                },
            }
            idx += 1;
        }
        proof {
            assert(uv.take(uv.len() as int) =~= uv);
            assert forall|slug: Seq<char>| #![auto] in_union(pes, nes, ens, slug) implies !
            spec_step_is_err(find_exp(pes, slug), find_exp(nes, slug), find_enr(ens, slug)) by {
                assert(uv.contains(slug));
                let j = choose|j: int| 0 <= j < uv.len() && uv[j] == slug;
            }
            assert forall|slug: Seq<char>|
                #![auto]
                in_union(pes, nes, ens, slug) implies (find_enr(
                enrs_views(updated_enrollments@),
                slug,
            ) is Some <==> spec_step_keeps(
                ctx,
                is_user_participating,
                self.now,
                find_exp(pes, slug),
                find_exp(nes, slug),
                find_enr(ens, slug),
            )) by {
                assert(uv.contains(slug));
                let j = choose|j: int| 0 <= j < uv.len() && uv[j] == slug;
            }
            assert forall|slug: Seq<char>|
                #![auto]
                in_union(pes, nes, ens, slug) && find_enr(
                    enrs_views(updated_enrollments@),
                    slug,
                ) is Some implies (exists|fresh: u128|
                #![auto]
                spec_step(
                    ctx,
                    is_user_participating,
                    self.now,
                    find_exp(pes, slug),
                    find_exp(nes, slug),
                    find_enr(ens, slug),
                    fresh,
                ) == Some(find_enr(enrs_views(updated_enrollments@), slug)->Some_0)) by {
                assert(uv.contains(slug));
                let j = choose|j: int| 0 <= j < uv.len() && uv[j] == slug;
            }
            assert forall|i: int|
                0 <= i < enrs_views(updated_enrollments@).len() implies in_union(
                pes,
                nes,
                ens,
                #[trigger] enrs_views(updated_enrollments@)[i].slug,
            ) by {
                let j = choose|j: int|
                    0 <= j < uv.len() && enrs_views(updated_enrollments@)[i].slug == uv[j];
                assert(uv.contains(uv[j]));
            }
            assert forall|j: int|
                0 <= j < union_slugs(pes, nes, ens).len() implies #[trigger] event_for_slug_at(
                self.ctx(),
                is_user_participating,
                self.now,
                pes,
                nes,
                ens,
                j,
                events_views(enrollment_events@),
            ) by {
                assert(ctx == self.ctx());
                assert(event_for_slug_at(
                    ctx,
                    is_user_participating,
                    self.now,
                    pes,
                    nes,
                    ens,
                    j,
                    events_views(enrollment_events@),
                ));
            }
        }
        Ok((updated_enrollments, enrollment_events))
    }
}

/// Pushing a record with a fresh slug leaves all other lookups unchanged
/// and makes its own lookup find it.
pub proof fn lemma_find_enr_push(s: Seq<EnrollmentView>, rec: EnrollmentView)
    ensures
        forall|slug: Seq<char>|
            slug != rec.slug ==> find_enr(s.push(rec), slug) == #[trigger] find_enr(s, slug),
        find_enr(s, rec.slug) is None ==> find_enr(s.push(rec), rec.slug) == Some(rec),
    decreases s.len(),
{
    let t = s.push(rec);
    if s.len() == 0 {
        assert(t[0] == rec);
        assert(t.skip(1) =~= Seq::<EnrollmentView>::empty());
        assert forall|slug: Seq<char>|
            slug != rec.slug implies find_enr(t, slug) == #[trigger] find_enr(s, slug) by {
            assert(find_enr(t, slug) == find_enr(t.skip(1), slug));
            assert(find_enr(t.skip(1), slug) is None);
            assert(find_enr(s, slug) is None);
        }
        assert(find_enr(t, rec.slug) == Some(rec));
    } else {
        lemma_find_enr_push(s.skip(1), rec);
        assert(t[0] == s[0]);
        assert(t.skip(1) =~= s.skip(1).push(rec));
        assert forall|slug: Seq<char>|
            slug != rec.slug implies find_enr(t, slug) == #[trigger] find_enr(s, slug) by {
            if s[0].slug != slug {
                assert(find_enr(t, slug) == find_enr(t.skip(1), slug));
                assert(find_enr(t.skip(1), slug) == find_enr(s.skip(1).push(rec), slug));
                assert(find_enr(s.skip(1).push(rec), slug) == find_enr(s.skip(1), slug));
                assert(find_enr(s, slug) == find_enr(s.skip(1), slug));
            }
        }
        if find_enr(s, rec.slug) is None {
            assert(s[0].slug != rec.slug);
            assert(find_enr(s.skip(1), rec.slug) is None);
            assert(find_enr(t, rec.slug) == find_enr(t.skip(1), rec.slug));
            assert(find_enr(s.skip(1).push(rec), rec.slug) == Some(rec));
        }
    }
}

} // verus!
