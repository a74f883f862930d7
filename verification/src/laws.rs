//! The guarantees of the planner, stated and proved once and for all: one
//! variant per eligible function, in declaration order, with the captured
//! prefix intact; and the exact diagnostic for each rejected input.

use vstd::prelude::*;

use crate::ast::{Error, FunctionSpec, ItemSpec, ParamSpec, PlanSpec};
use crate::plan::{arg_of_param, first_tag_match, pascal_of, plan_of, spec_eligible,
    spec_param_check, spec_plan, spec_plan_from};

verus! {

/// One planned variant agrees with its function: the tag is the camel-cased
/// function name, and the payload is exactly the parameters left after
/// removing the `common` trailing ones, in their original order.
pub open spec fn plan_matches(f: FunctionSpec, p: PlanSpec, common: int) -> bool {
    &&& p.tag == pascal_of(f.name)
    &&& p.func == f.name
    &&& f.params.len() >= common
    &&& p.captured.len() == f.params.len() - common
    &&& forall|k: int|
        0 <= k < p.captured.len() ==> #[trigger] p.captured[k] == arg_of_param(f.params[k])
}

/// A function the planner accepts: every parameter is a simple named
/// binding and there are at least `common` of them.
pub open spec fn func_clean(f: FunctionSpec, common: int) -> bool {
    &&& f.params.len() >= common
    &&& forall|k: int| 0 <= k < f.params.len() ==> #[trigger] f.params[k] is Named
}

proof fn lemma_first_tag_match_props(plans: Seq<PlanSpec>, tag: Seq<char>, k: int)
    requires
        0 <= k <= plans.len(),
    ensures
        k <= first_tag_match(plans, tag, k) <= plans.len(),
        first_tag_match(plans, tag, k) < plans.len() ==> plans[first_tag_match(
            plans,
            tag,
            k,
        )].tag == tag,
        forall|k2: int| k <= k2 < first_tag_match(plans, tag, k) ==> plans[k2].tag != tag,
    decreases plans.len() - k,
{
    if k < plans.len() && plans[k].tag != tag {
        lemma_first_tag_match_props(plans, tag, k + 1);
    }
}

proof fn lemma_param_check_all_named(ps: Seq<ParamSpec>, func: int, j: int)
    requires
        0 <= j <= ps.len(),
        forall|k: int| j <= k < ps.len() ==> #[trigger] ps[k] is Named,
    ensures
        spec_param_check(ps, func, j) is None,
    decreases ps.len() - j,
{
    if j < ps.len() {
        lemma_param_check_all_named(ps, func, j + 1);
    }
}

proof fn lemma_param_check_finds(ps: Seq<ParamSpec>, func: int, lo: int, j: int)
    requires
        0 <= lo <= j < ps.len(),
        forall|k: int| lo <= k < j ==> #[trigger] ps[k] is Named,
        !(ps[j] is Named),
    ensures
        spec_param_check(ps, func, lo) == (if ps[j] is Receiver {
            Some(Error::ReceiverNotAllowed { func: func as usize, param: j as usize })
        } else {
            Some(Error::ArgumentMustBeNamed { func: func as usize, param: j as usize })
        }),
    decreases j - lo,
{
    if lo < j {
        lemma_param_check_finds(ps, func, lo + 1, j);
    }
}

proof fn lemma_plan_from_ok(
    funcs: Seq<FunctionSpec>,
    common: int,
    i: int,
    acc: Seq<PlanSpec>,
    plans: Seq<PlanSpec>,
)
    requires
        0 <= common,
        0 <= i <= funcs.len(),
        spec_plan_from(funcs, common, i, acc) == Ok::<Seq<PlanSpec>, Error>(plans),
    ensures
        plans.len() == acc.len() + funcs.len() - i,
        forall|j: int| 0 <= j < acc.len() ==> plans[j] == acc[j],
        forall|j: int|
            i <= j < funcs.len() ==> plan_matches(
                #[trigger] funcs[j],
                plans[acc.len() + j - i],
                common,
            ),
        forall|j1: int, j2: int|
            0 <= j1 < j2 < plans.len() && acc.len() <= j2 ==> #[trigger] plans[j1].tag
                != #[trigger] plans[j2].tag,
    decreases funcs.len() - i,
{
    if i < funcs.len() {
        let f = funcs[i];
        let tag = pascal_of(f.name);
        lemma_first_tag_match_props(acc, tag, 0);
        assert(first_tag_match(acc, tag, 0) == acc.len());
        let newp = plan_of(f, common);
        let acc2 = acc.push(newp);
        lemma_plan_from_ok(funcs, common, i + 1, acc2, plans);
        assert(plan_matches(f, newp, common));
        assert(plans[acc.len() as int] == newp);
        assert forall|j: int|
            i <= j < funcs.len() implies plan_matches(
            #[trigger] funcs[j],
            plans[acc.len() + j - i],
            common,
        ) by {
            if j > i {
                assert(plan_matches(funcs[j], plans[acc2.len() + j - (i + 1)], common));
            }
        }
    }
}

/// Variant cardinality: when planning succeeds, the generated union has
/// exactly one variant per eligible declaration of the body.
pub proof fn lemma_variant_cardinality(items: Seq<ItemSpec>, common: int, plans: Seq<PlanSpec>)
    requires
        0 <= common,
        spec_plan(spec_eligible(items), common) == Ok::<Seq<PlanSpec>, Error>(plans),
    ensures
        plans.len() == spec_eligible(items).len(),
{
    lemma_plan_from_ok(spec_eligible(items), common, 0, Seq::empty(), plans);
}

/// Order preservation and the captured-count invariant: when planning
/// succeeds, variant `j` stands for function `j` in declaration order, its
/// tag is that function's camel-cased name, its payload holds exactly
/// `total - common` parameters, and payload position `k` is the function's
/// parameter `k`. No two variants share a tag.
pub proof fn lemma_order_and_captured(funcs: Seq<FunctionSpec>, common: int, plans: Seq<PlanSpec>)
    requires
        0 <= common,
        spec_plan(funcs, common) == Ok::<Seq<PlanSpec>, Error>(plans),
    ensures
        plans.len() == funcs.len(),
        forall|j: int| 0 <= j < funcs.len() ==> plan_matches(#[trigger] funcs[j], plans[j], common),
        forall|j1: int, j2: int|
            0 <= j1 < j2 < plans.len() ==> #[trigger] plans[j1].tag != #[trigger] plans[j2].tag,
{
    lemma_plan_from_ok(funcs, common, 0, Seq::empty(), plans);
}

/// Zero-common-parameter degenerate case: under an empty signature
/// pattern, every variant's payload is the function's entire parameter
/// list, in order.
pub proof fn lemma_zero_common_captures_all(funcs: Seq<FunctionSpec>, plans: Seq<PlanSpec>)
    requires
        spec_plan(funcs, 0) == Ok::<Seq<PlanSpec>, Error>(plans),
    ensures
        plans.len() == funcs.len(),
        forall|j: int|
            0 <= j < funcs.len() ==> #[trigger] plans[j].captured.len() == funcs[j].params.len(),
        forall|j: int, k: int|
            0 <= j < funcs.len() && 0 <= k < funcs[j].params.len()
                ==> #[trigger] plans[j].captured[k] == arg_of_param(funcs[j].params[k]),
{
    lemma_order_and_captured(funcs, 0, plans);
    assert forall|j: int, k: int|
        0 <= j < funcs.len() && 0 <= k < funcs[j].params.len()
            implies #[trigger] plans[j].captured[k] == arg_of_param(funcs[j].params[k]) by {
        assert(plan_matches(funcs[j], plans[j], 0));
    }
}

/// Planning after `t` accepted functions: the plan so far.
pub open spec fn plans_prefix(funcs: Seq<FunctionSpec>, common: int, t: int) -> Seq<PlanSpec>
    decreases t,
{
    if t <= 0 {
        Seq::empty()
    } else {
        plans_prefix(funcs, common, t - 1).push(plan_of(funcs[t - 1], common))
    }
}

proof fn lemma_plan_reaches(funcs: Seq<FunctionSpec>, common: int, t: int)
    requires
        0 <= common,
        0 <= t <= funcs.len(),
        forall|u: int| 0 <= u < t ==> func_clean(#[trigger] funcs[u], common),
        forall|u1: int, u2: int|
            0 <= u1 < u2 < t ==> pascal_of(#[trigger] funcs[u1].name)
                != pascal_of(#[trigger] funcs[u2].name),
    ensures
        plans_prefix(funcs, common, t).len() == t,
        forall|u: int|
            0 <= u < t ==> plans_prefix(funcs, common, t)[u] == plan_of(
                #[trigger] funcs[u],
                common,
            ),
        spec_plan(funcs, common) == spec_plan_from(
            funcs,
            common,
            t,
            plans_prefix(funcs, common, t),
        ),
    decreases t,
{
    if t > 0 {
        lemma_plan_reaches(funcs, common, t - 1);
        let acc = plans_prefix(funcs, common, t - 1);
        let f = funcs[t - 1];
        lemma_param_check_all_named(f.params, t - 1, 0);
        let tag = pascal_of(f.name);
        lemma_first_tag_match_props(acc, tag, 0);
        let m = first_tag_match(acc, tag, 0);
        if m < acc.len() {
            assert(acc[m].tag == tag);
            assert(acc[m] == plan_of(funcs[m], common));
            assert(pascal_of(funcs[m].name) == pascal_of(funcs[t - 1].name));
            assert(false);
        }
        assert(spec_plan_from(funcs, common, t - 1, acc) == spec_plan_from(
            funcs,
            common,
            t,
            acc.push(plan_of(f, common)),
        ));
    }
}

/// Rejection: a candidate function with a receiver parameter aborts the
/// whole plan with `ReceiverNotAllowed`, pointing at that function and
/// parameter — the first offending parameter of the first function the
/// planner does not accept.
pub proof fn lemma_receiver_rejected(funcs: Seq<FunctionSpec>, common: int, i: int, j: int)
    requires
        0 <= common,
        0 <= i < funcs.len(),
        0 <= j < funcs[i].params.len(),
        forall|u: int| 0 <= u < i ==> func_clean(#[trigger] funcs[u], common),
        forall|u1: int, u2: int|
            0 <= u1 < u2 < i ==> pascal_of(#[trigger] funcs[u1].name)
                != pascal_of(#[trigger] funcs[u2].name),
        funcs[i].params[j] is Receiver,
        forall|k: int| 0 <= k < j ==> #[trigger] funcs[i].params[k] is Named,
    ensures
        spec_plan(funcs, common) == Err::<Seq<PlanSpec>, Error>(
            Error::ReceiverNotAllowed { func: i as usize, param: j as usize },
        ),
{
    lemma_plan_reaches(funcs, common, i);
    lemma_param_check_finds(funcs[i].params, i, 0, j);
}

/// Rejection: a candidate function with a destructuring pattern binding
/// aborts the whole plan with `ArgumentMustBeNamed`, pointing at that
/// function and parameter — the first offending parameter of the first
/// function the planner does not accept.
pub proof fn lemma_pattern_rejected(funcs: Seq<FunctionSpec>, common: int, i: int, j: int)
    requires
        0 <= common,
        0 <= i < funcs.len(),
        0 <= j < funcs[i].params.len(),
        forall|u: int| 0 <= u < i ==> func_clean(#[trigger] funcs[u], common),
        forall|u1: int, u2: int|
            0 <= u1 < u2 < i ==> pascal_of(#[trigger] funcs[u1].name)
                != pascal_of(#[trigger] funcs[u2].name),
        funcs[i].params[j] is Pattern,
        forall|k: int| 0 <= k < j ==> #[trigger] funcs[i].params[k] is Named,
    ensures
        spec_plan(funcs, common) == Err::<Seq<PlanSpec>, Error>(
            Error::ArgumentMustBeNamed { func: i as usize, param: j as usize },
        ),
{
    lemma_plan_reaches(funcs, common, i);
    lemma_param_check_finds(funcs[i].params, i, 0, j);
}

/// Rejection: a candidate function that declares fewer parameters than the
/// signature pattern requires aborts the whole plan with `ArityUnderflow`.
pub proof fn lemma_arity_underflow(funcs: Seq<FunctionSpec>, common: int, i: int)
    requires
        0 <= common,
        0 <= i < funcs.len(),
        forall|u: int| 0 <= u < i ==> func_clean(#[trigger] funcs[u], common),
        forall|u1: int, u2: int|
            0 <= u1 < u2 < i ==> pascal_of(#[trigger] funcs[u1].name)
                != pascal_of(#[trigger] funcs[u2].name),
        forall|k: int| 0 <= k < funcs[i].params.len() ==> #[trigger] funcs[i].params[k] is Named,
        funcs[i].params.len() < common,
    ensures
        spec_plan(funcs, common) == Err::<Seq<PlanSpec>, Error>(
            Error::ArityUnderflow { func: i as usize },
        ),
{
    lemma_plan_reaches(funcs, common, i);
    lemma_param_check_all_named(funcs[i].params, i, 0);
}

/// Rejection: two eligible functions whose names derive the same tag abort
/// the whole plan with `TagCollision`, naming the earliest function with
/// that tag and the later one that collided with it.
pub proof fn lemma_tag_collision(funcs: Seq<FunctionSpec>, common: int, t: int, i: int)
    requires
        0 <= common,
        0 <= t < i < funcs.len(),
        forall|u: int| 0 <= u < i ==> func_clean(#[trigger] funcs[u], common),
        forall|u1: int, u2: int|
            0 <= u1 < u2 < i ==> pascal_of(#[trigger] funcs[u1].name)
                != pascal_of(#[trigger] funcs[u2].name),
        func_clean(funcs[i], common),
        pascal_of(funcs[t].name) == pascal_of(funcs[i].name),
    ensures
        spec_plan(funcs, common) == Err::<Seq<PlanSpec>, Error>(
            Error::TagCollision { first: t as usize, second: i as usize },
        ),
{
    lemma_plan_reaches(funcs, common, i);
    lemma_param_check_all_named(funcs[i].params, i, 0);
    let acc = plans_prefix(funcs, common, i);
    let tag = pascal_of(funcs[i].name);
    lemma_first_tag_match_props(acc, tag, 0);
    let m = first_tag_match(acc, tag, 0);
    assert(acc[t as int].tag == tag);
    assert(m <= t);
    if m < t {
        assert(acc[m].tag == tag);
        assert(pascal_of(funcs[m].name) != pascal_of(funcs[i].name));
        assert(false);
    }
}

} // verus!

