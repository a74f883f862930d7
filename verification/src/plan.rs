//! Candidate analysis and variant planning: which declarations of the body
//! are eligible, which of their parameters are captured, what tag each
//! variant carries, and which inputs are rejected.

use vstd::prelude::*;

use crate::ast::{ArgSpec, Error, Function, FunctionSpec, Item, ItemSpec, ParamShape, ParamSpec,
    PlanSpec, SimpleArg, VariantPlan};

verus! {

/// The tag casing convention: what heck's camel-casing returns for a given
/// sequence of characters. The result depends on the characters alone.
pub uninterp spec fn pascal_of(s: Seq<char>) -> Seq<char>;

/// Relies on heck's `CamelCase::to_camel_case` for `str`: a pure function
/// of the input characters that capitalizes each word and joins them.
#[verifier::external_body]
pub(crate) fn pascal_case(s: &str) -> (r: String)
    ensures
        r@ == pascal_of(s@),
{
    heck::CamelCase::to_camel_case(s)
}

/// Copies the characters of a string.
fn copy_string(s: &String) -> (r: String)
    ensures
        r@ == s@,
{
    s.as_str().to_owned()
}

/// The eligible candidates of a body: its function definitions whose
/// declared accessibility is public, in declaration order.
pub open spec fn spec_eligible(items: Seq<ItemSpec>) -> Seq<FunctionSpec>
    decreases items.len(),
{
    if items.len() == 0 {
        Seq::empty()
    } else {
        let init = spec_eligible(items.drop_last());
        match items.last() {
            ItemSpec::Function(f) => if f.public {
                init.push(f)
            } else {
                init
            },
            ItemSpec::Other(_) => init,
        }
    }
}

/// Extracts the eligible candidates of a body, in declaration order.
/// Declarations that are not public function definitions are left for the
/// emitter to pass through untouched.
pub fn eligible_functions(items: &Vec<Item>) -> (r: Vec<Function>)
    ensures
        r.deep_view() == spec_eligible(items.deep_view()),
{
    let ghost all = items.deep_view();
    let mut r: Vec<Function> = Vec::new();
    let mut i: usize = 0;
    while i < items.len()
        invariant
            i <= items.len(),
            all == items.deep_view(),
            r.deep_view() == spec_eligible(all.take(i as int)),
        decreases items.len() - i,
    {
        let ghost prev = r.deep_view();
        match &items[i] {
            Item::Function(f) => {
                if f.public {
                    let copied = copy_function(f);
                    r.push(copied);
                }
            },
            Item::Other(_) => {},
        }
        proof {
            assert(all.take(i + 1).drop_last() =~= all.take(i as int));
            assert(all.take(i + 1).last() == all[i as int]);
            assert(all[i as int] == items[i as int].deep_view());
            if r.deep_view() != prev {
                assert(r.deep_view() =~= spec_eligible(all.take(i + 1)));
            }
        }
        i += 1;
    }
    proof {
        assert(all.take(items.len() as int) =~= all);
    }
    r
}

/// Copies one parameter shape.
fn copy_param(p: &ParamShape) -> (r: ParamShape)
    ensures
        r.deep_view() == p.deep_view(),
{
    match p {
        ParamShape::Receiver => ParamShape::Receiver,
        ParamShape::Named { name, ty } => ParamShape::Named {
            name: copy_string(name),
            ty: copy_string(ty),
        },
        ParamShape::Pattern { ty } => ParamShape::Pattern { ty: copy_string(ty) },
    }
}

/// Copies one function descriptor.
fn copy_function(f: &Function) -> (r: Function)
    ensures
        r.deep_view() == f.deep_view(),
{
    let mut params: Vec<ParamShape> = Vec::new();
    let mut j: usize = 0;
    while j < f.params.len()
        invariant
            j <= f.params.len(),
            params.deep_view() == f.params.deep_view().take(j as int),
        decreases f.params.len() - j,
    {
        let ghost prev = params.deep_view();
        let copied = copy_param(&f.params[j]);
        proof {
            assert(copied.deep_view() == f.params@[j as int].deep_view());
        }
        params.push(copied);
        proof {
            assert(params.deep_view() =~= prev.push(f.params.deep_view()[j as int]));
            assert(params.deep_view() =~= f.params.deep_view().take(j + 1));
        }
        j += 1;
    }
    proof {
        assert(f.params.deep_view().take(f.params.len() as int) =~= f.params.deep_view());
    }
    Function {
        name: copy_string(&f.name),
        public: f.public,
        params,
        text: copy_string(&f.text),
    }
}

/// The first parameter at or after `j` that is not a simple named binding,
/// reported as the error the planner raises for it; `None` when every
/// parameter from `j` on is a simple named binding.
pub open spec fn spec_param_check(ps: Seq<ParamSpec>, func: int, j: int) -> Option<Error>
    decreases ps.len() - j,
{
    if j < 0 || j >= ps.len() {
        None
    } else {
        match ps[j] {
            ParamSpec::Named { .. } => spec_param_check(ps, func, j + 1),
            ParamSpec::Receiver => Some(
                Error::ReceiverNotAllowed { func: func as usize, param: j as usize },
            ),
            ParamSpec::Pattern { .. } => Some(
                Error::ArgumentMustBeNamed { func: func as usize, param: j as usize },
            ),
        }
    }
}

/// The captured parameter of a simple named binding.
pub open spec fn arg_of_param(p: ParamSpec) -> ArgSpec {
    match p {
        ParamSpec::Named { name, ty } => ArgSpec { name, ty },
        _ => arbitrary(),
    }
}

/// The captured prefix of a parameter list: everything but the last
/// `common` parameters, in order.
pub open spec fn captured_of(ps: Seq<ParamSpec>, common: int) -> Seq<ArgSpec> {
    Seq::new((ps.len() - common) as nat, |k: int| arg_of_param(ps[k]))
}

/// The first plan at or after `k` whose tag equals `tag`, or `plans.len()`
/// when none does.
pub open spec fn first_tag_match(plans: Seq<PlanSpec>, tag: Seq<char>, k: int) -> int
    decreases plans.len() - k,
{
    if k < 0 || k >= plans.len() {
        plans.len() as int
    } else if plans[k].tag == tag {
        k
    } else {
        first_tag_match(plans, tag, k + 1)
    }
}

/// The planned variant of one eligible function under a signature pattern
/// with `common` trailing parameters.
pub open spec fn plan_of(f: FunctionSpec, common: int) -> PlanSpec {
    PlanSpec {
        tag: pascal_of(f.name),
        func: f.name,
        captured: captured_of(f.params, common),
    }
}

/// The planner, from eligible function `i` on, with the variants already
/// planned in `acc`: the first function with a receiver or pattern
/// parameter, too few parameters, or a tag already taken aborts the whole
/// plan with its error; otherwise every function contributes one variant,
/// in order.
pub open spec fn spec_plan_from(
    funcs: Seq<FunctionSpec>,
    common: int,
    i: int,
    acc: Seq<PlanSpec>,
) -> Result<Seq<PlanSpec>, Error>
    decreases funcs.len() - i,
{
    if i < 0 || i >= funcs.len() {
        Ok(acc)
    } else {
        let f = funcs[i];
        match spec_param_check(f.params, i, 0) {
            Some(e) => Err(e),
            None => if f.params.len() < common {
                Err(Error::ArityUnderflow { func: i as usize })
            } else {
                let tag = pascal_of(f.name);
                let k = first_tag_match(acc, tag, 0);
                if k < acc.len() {
                    Err(Error::TagCollision { first: k as usize, second: i as usize })
                } else {
                    spec_plan_from(funcs, common, i + 1, acc.push(plan_of(f, common)))
                }
            },
        }
    }
}

/// The complete variant plan for a list of eligible functions.
pub open spec fn spec_plan(funcs: Seq<FunctionSpec>, common: int) -> Result<Seq<PlanSpec>, Error> {
    spec_plan_from(funcs, common, 0, Seq::empty())
}

proof fn lemma_param_check_none(ps: Seq<ParamSpec>, func: int, j: int)
    requires
        0 <= j <= ps.len(),
        spec_param_check(ps, func, j) is None,
    ensures
        forall|k: int| j <= k < ps.len() ==> #[trigger] ps[k] is Named,
    decreases ps.len() - j,
{
    if j < ps.len() {
        lemma_param_check_none(ps, func, j + 1);
    }
}

/// Plans one variant per eligible function, in declaration order: the tag
/// is the camel-cased function name, the payload is the captured parameter
/// prefix, and the first ineligible shape aborts with its diagnostic.
#[verifier::loop_isolation(false)]
pub fn plan_variants(funcs: &Vec<Function>, common: usize) -> (r: Result<Vec<VariantPlan>, Error>)
    ensures
        match r {
            Ok(plans) => spec_plan(funcs.deep_view(), common as int)
                == Ok::<Seq<PlanSpec>, Error>(plans.deep_view()),
            Err(e) => spec_plan(funcs.deep_view(), common as int)
                == Err::<Seq<PlanSpec>, Error>(e),
        },
{
    let ghost fs = funcs.deep_view();
    let mut acc: Vec<VariantPlan> = Vec::new();
    proof {
        assert(acc.deep_view() =~= Seq::<PlanSpec>::empty());
    }
    let mut i: usize = 0;
    while i < funcs.len()
        invariant
            i <= funcs.len(),
            fs == funcs.deep_view(),
            acc.deep_view().len() <= i,
            spec_plan(fs, common as int)
                == spec_plan_from(fs, common as int, i as int, acc.deep_view()),
        decreases funcs.len() - i,
    {
        let f = &funcs[i];
        let ghost fv = f.deep_view();
        assert(fv == fs[i as int]);

        // Validate every parameter shape, in order.
        let mut j: usize = 0;
        while j < f.params.len()
            invariant
                j <= f.params.len(),
                fv == f.deep_view(),
                i < funcs.len(),
                spec_param_check(fv.params, i as int, 0)
                    == spec_param_check(fv.params, i as int, j as int),
            decreases f.params.len() - j,
        {
            proof {
                assert(fv.params[j as int] == f.params@[j as int].deep_view());
            }
            match &f.params[j] {
                ParamShape::Named { .. } => {
                    proof {
                        assert(spec_param_check(fv.params, i as int, j as int)
                            == spec_param_check(fv.params, i as int, j + 1));
                    }
                },
                ParamShape::Receiver => {
                    proof {
                        assert(spec_param_check(fv.params, i as int, j as int)
                            == Some(Error::ReceiverNotAllowed { func: i, param: j }));
                        assert(spec_plan_from(fs, common as int, i as int, acc.deep_view())
                            == Err::<Seq<PlanSpec>, Error>(
                            Error::ReceiverNotAllowed { func: i, param: j },
                        ));
                    }
                    return Err(Error::ReceiverNotAllowed { func: i, param: j });
                },
                ParamShape::Pattern { .. } => {
                    proof {
                        assert(spec_param_check(fv.params, i as int, j as int)
                            == Some(Error::ArgumentMustBeNamed { func: i, param: j }));
                        assert(spec_plan_from(fs, common as int, i as int, acc.deep_view())
                            == Err::<Seq<PlanSpec>, Error>(
                            Error::ArgumentMustBeNamed { func: i, param: j },
                        ));
                    }
                    return Err(Error::ArgumentMustBeNamed { func: i, param: j });
                },
            }
            j += 1;
        }
        proof {
            assert(spec_param_check(fv.params, i as int, f.params.len() as int) is None);
            lemma_param_check_none(fv.params, i as int, 0);
        }

        // The function must offer at least the common trailing parameters.
        if f.params.len() < common {
            proof {
                assert(spec_plan_from(fs, common as int, i as int, acc.deep_view())
                    == Err::<Seq<PlanSpec>, Error>(Error::ArityUnderflow { func: i }));
            }
            return Err(Error::ArityUnderflow { func: i });
        }

        // Derive the tag and refuse a collision with an earlier variant.
        let tag = pascal_case(f.name.as_str());
        let mut k: usize = 0;
        while k < acc.len()
            invariant
                k <= acc.len(),
                first_tag_match(acc.deep_view(), tag@, 0)
                    == first_tag_match(acc.deep_view(), tag@, k as int),
                i < funcs.len(),
            decreases acc.len() - k,
        {
            proof {
                assert(acc.deep_view()[k as int] == acc@[k as int].deep_view());
            }
            if acc[k].tag.eq(&tag) {
                proof {
                    assert(first_tag_match(acc.deep_view(), tag@, k as int) == k as int);
                    assert(spec_plan_from(fs, common as int, i as int, acc.deep_view())
                        == Err::<Seq<PlanSpec>, Error>(
                        Error::TagCollision { first: k, second: i },
                    ));
                }
                return Err(Error::TagCollision { first: k, second: i });
            }
            proof {
                assert(first_tag_match(acc.deep_view(), tag@, k as int)
                    == first_tag_match(acc.deep_view(), tag@, k + 1));
            }
            k += 1;
        }

        // Capture everything but the common trailing parameters.
        let n_cap = f.params.len() - common;
        let mut captured: Vec<SimpleArg> = Vec::new();
        let mut c: usize = 0;
        while c < n_cap
            invariant
                c <= n_cap,
                n_cap == fv.params.len() - common,
                fv == f.deep_view(),
                forall|k2: int| 0 <= k2 < fv.params.len() ==> #[trigger] fv.params[k2] is Named,
                captured.deep_view().len() == c,
                forall|k2: int| 0 <= k2 < c
                    ==> #[trigger] captured.deep_view()[k2] == arg_of_param(fv.params[k2]),
            decreases n_cap - c,
        {
            proof {
                assert(fv.params[c as int] == f.params@[c as int].deep_view());
            }
            match &f.params[c] {
                ParamShape::Named { name, ty } => {
                    let ghost prev = captured.deep_view();
                    let arg = SimpleArg { name: copy_string(name), ty: copy_string(ty) };
                    captured.push(arg);
                    proof {
                        assert(captured.deep_view() =~= prev.push(arg.deep_view()));
                        assert(arg.deep_view() == arg_of_param(fv.params[c as int]));
                    }
                },
                _ => {
                    proof {
                        assert(fv.params[c as int] is Named);
                        assert(false);
                    }
                },
            }
            c += 1;
        }
        proof {
            assert(captured.deep_view() =~= captured_of(fv.params, common as int));
        }

        proof {
            assert(first_tag_match(acc.deep_view(), tag@, acc.len() as int)
                == acc.deep_view().len());
        }
        let plan = VariantPlan { tag, func: copy_string(&f.name), captured };
        let ghost pv = plan.deep_view();
        let ghost prev_acc = acc.deep_view();
        proof {
            assert(pv == plan_of(fv, common as int));
        }
        acc.push(plan);
        proof {
            assert(acc.deep_view() =~= prev_acc.push(plan_of(fv, common as int)));
            assert(spec_plan_from(fs, common as int, i as int, prev_acc)
                == spec_plan_from(fs, common as int, i + 1, acc.deep_view()));
        }
        i += 1;
    }
    proof {
        assert(spec_plan_from(fs, common as int, i as int, acc.deep_view())
            == Ok::<Seq<PlanSpec>, Error>(acc.deep_view()));
    }
    Ok(acc)
}

} // verus!
