//! Emission of the three artifacts: the candidate body itself (with the
//! relocated derivation attribute removed), the tagged-union declaration,
//! the uniform calling-convention impl, and the dispatch method. The
//! emitted text is pinned down character for character by the spec
//! functions below; the executable emitter returns exactly that text.

use vstd::prelude::*;
use vstd::string::{StrSliceExecFns, StringExecFns};

use crate::ast::{ArgSpec, Attr, AttrSpec, Item, ItemSpec, ModuleBody, ModuleSpec, PlanSpec,
    Signature, SignatureSpec, SimpleArg, VariantPlan};

verus! {

/// The index of the first derivation attribute at or after `k`, or the
/// number of attributes when there is none.
pub open spec fn first_derive(attrs: Seq<AttrSpec>, k: int) -> int
    decreases attrs.len() - k,
{
    if k < 0 || k >= attrs.len() {
        attrs.len() as int
    } else if attrs[k].derive {
        k
    } else {
        first_derive(attrs, k + 1)
    }
}

/// The names of a parameter list, in order.
pub open spec fn names_of(args: Seq<ArgSpec>) -> Seq<Seq<char>> {
    args.map_values(|a: ArgSpec| a.name)
}

/// The types of a parameter list, in order.
pub open spec fn tys_of(args: Seq<ArgSpec>) -> Seq<Seq<char>> {
    args.map_values(|a: ArgSpec| a.ty)
}

/// The first `k` texts joined with `", "`.
pub open spec fn join_comma(xs: Seq<Seq<char>>, k: int) -> Seq<char>
    decreases k,
{
    if k <= 0 {
        Seq::empty()
    } else if k == 1 {
        xs[0]
    } else {
        join_comma(xs, k - 1) + ", "@ + xs[k - 1]
    }
}

/// The texts joined with `", "` and parenthesized: the structural tuple.
pub open spec fn tuple_of(xs: Seq<Seq<char>>) -> Seq<char> {
    "("@ + join_comma(xs, xs.len() as int) + ")"@
}

/// The first `k` parameters rendered `", name: Type"` each, following a
/// leading `self`.
pub open spec fn param_decls(args: Seq<ArgSpec>, k: int) -> Seq<char>
    decreases k,
{
    if k <= 0 {
        Seq::empty()
    } else {
        param_decls(args, k - 1) + ", "@ + args[k - 1].name + ": "@ + args[k - 1].ty
    }
}

/// The visibility followed by one space, or nothing when it is empty.
pub open spec fn vis_prefix(vis: Seq<char>) -> Seq<char> {
    if vis.len() == 0 {
        Seq::empty()
    } else {
        vis + " "@
    }
}

/// The generic parameter list in angle brackets, or nothing.
pub open spec fn generics_text(g: Option<Seq<char>>) -> Seq<char> {
    match g {
        Some(t) => "<"@ + t + ">"@,
        None => Seq::empty(),
    }
}

/// The ` -> Type` suffix, or nothing when the pattern declares no return
/// type.
pub open spec fn ret_suffix(o: Option<Seq<char>>) -> Seq<char> {
    match o {
        Some(t) => " -> "@ + t,
        None => Seq::empty(),
    }
}

/// The declared return type, or the unit type when absent.
pub open spec fn output_type(o: Option<Seq<char>>) -> Seq<char> {
    match o {
        Some(t) => t,
        None => "()"@,
    }
}

/// The ` where Constraints` suffix, or nothing.
pub open spec fn where_suffix(w: Option<Seq<char>>) -> Seq<char> {
    match w {
        Some(t) => " where "@ + t,
        None => Seq::empty(),
    }
}

/// The verbatim source text of one declaration.
pub open spec fn item_text(it: ItemSpec) -> Seq<char> {
    match it {
        ItemSpec::Function(f) => f.text,
        ItemSpec::Other(t) => t,
    }
}

/// The first `k` attribute lines, leaving out the one at `skip`.
pub open spec fn emit_attrs(attrs: Seq<AttrSpec>, skip: int, k: int) -> Seq<char>
    decreases k,
{
    if k <= 0 {
        Seq::empty()
    } else {
        let init = emit_attrs(attrs, skip, k - 1);
        if k - 1 == skip {
            init
        } else {
            init + attrs[k - 1].text + "\n"@
        }
    }
}

/// The first `k` declarations of the body, each on its own line.
pub open spec fn emit_items(items: Seq<ItemSpec>, k: int) -> Seq<char>
    decreases k,
{
    if k <= 0 {
        Seq::empty()
    } else {
        emit_items(items, k - 1) + item_text(items[k - 1]) + "\n"@
    }
}

/// The candidate body, re-emitted verbatim — only the relocated derivation
/// attribute is removed from its attributes.
pub open spec fn emit_module(m: ModuleSpec) -> Seq<char> {
    emit_attrs(m.attrs, first_derive(m.attrs, 0), m.attrs.len() as int) + vis_prefix(m.vis)
        + "mod "@ + m.name + " {\n"@ + emit_items(m.items, m.items.len() as int) + "}\n"@
}

/// One variant declaration line: the tag, with the captured types as its
/// payload tuple — or no payload at all when nothing is captured.
pub open spec fn variant_decl(p: PlanSpec) -> Seq<char> {
    "    "@ + p.tag + (if p.captured.len() == 0 {
        Seq::<char>::empty()
    } else {
        "("@ + join_comma(tys_of(p.captured), p.captured.len() as int) + ")"@
    }) + ",\n"@
}

/// The first `k` variant declaration lines.
pub open spec fn emit_variants(plans: Seq<PlanSpec>, k: int) -> Seq<char>
    decreases k,
{
    if k <= 0 {
        Seq::empty()
    } else {
        emit_variants(plans, k - 1) + variant_decl(plans[k - 1])
    }
}

/// The tagged-union declaration, carrying the relocated derivation
/// attribute when the body had one.
pub open spec fn emit_union_decl(m: ModuleSpec, name: Seq<char>, plans: Seq<PlanSpec>) -> Seq<
    char,
> {
    let fd = first_derive(m.attrs, 0);
    (if fd < m.attrs.len() {
        m.attrs[fd].text + "\n"@
    } else {
        Seq::<char>::empty()
    }) + vis_prefix(m.vis) + "enum "@ + name + " {\n"@ + emit_variants(
        plans,
        plans.len() as int,
    ) + "}\n"@
}

/// The uniform calling-convention impl: `DeFn` keyed by the tuple of the
/// common parameter types, unpacking the tuple and forwarding to the
/// dispatch method.
pub open spec fn emit_defn_impl(sig: SignatureSpec, name: Seq<char>) -> Seq<char> {
    "impl"@ + generics_text(sig.generics) + " defunctionalize::DeFn<"@ + tuple_of(
        tys_of(sig.inputs),
    ) + "> for "@ + name + where_suffix(sig.where_clause) + " {\n"@ + "    type Output = "@
        + output_type(sig.output) + ";\n\n"@ + "    fn call(self, "@ + tuple_of(
        names_of(sig.inputs),
    ) + ": "@ + tuple_of(tys_of(sig.inputs)) + ")"@ + ret_suffix(sig.output) + " {\n"@
        + "        self.call("@ + join_comma(names_of(sig.inputs), sig.inputs.len() as int)
        + ")\n"@ + "    }\n}\n"@
}

/// One dispatch arm: destructure the variant's captured payload into the
/// original parameter names and call the original function with the
/// captured names followed by the common names.
pub open spec fn emit_arm(p: PlanSpec, sig: SignatureSpec, mod_name: Seq<char>) -> Seq<char> {
    "            Self::"@ + p.tag + (if p.captured.len() == 0 {
        Seq::<char>::empty()
    } else {
        "("@ + join_comma(names_of(p.captured), p.captured.len() as int) + ")"@
    }) + " => "@ + mod_name + "::"@ + p.func + "("@ + join_comma(
        names_of(p.captured) + names_of(sig.inputs),
        p.captured.len() + sig.inputs.len() as int,
    ) + "),\n"@
}

/// The first `k` dispatch arms.
pub open spec fn emit_arms(
    plans: Seq<PlanSpec>,
    sig: SignatureSpec,
    mod_name: Seq<char>,
    k: int,
) -> Seq<char>
    decreases k,
{
    if k <= 0 {
        Seq::empty()
    } else {
        emit_arms(plans, sig, mod_name, k - 1) + emit_arm(plans[k - 1], sig, mod_name)
    }
}

/// The dispatch method: `call` on the union, with the signature pattern's
/// own parameters, matching every variant.
pub open spec fn emit_call_impl(
    m: ModuleSpec,
    sig: SignatureSpec,
    name: Seq<char>,
    plans: Seq<PlanSpec>,
) -> Seq<char> {
    "impl "@ + name + " {\n"@ + "    "@ + vis_prefix(m.vis) + "fn call"@ + generics_text(
        sig.generics,
    ) + "(self"@ + param_decls(sig.inputs, sig.inputs.len() as int) + ")"@ + ret_suffix(
        sig.output,
    ) + where_suffix(sig.where_clause) + " {\n"@ + "        match self {\n"@ + emit_arms(
        plans,
        sig,
        m.name,
        plans.len() as int,
    ) + "        }\n    }\n}\n"@
}

/// The whole output: the body, then the union, then the uniform impl, then
/// the dispatch method, separated by blank lines.
pub open spec fn spec_emit(
    m: ModuleSpec,
    sig: SignatureSpec,
    name: Seq<char>,
    plans: Seq<PlanSpec>,
) -> Seq<char> {
    emit_module(m) + "\n"@ + emit_union_decl(m, name, plans) + "\n"@ + emit_defn_impl(sig, name)
        + "\n"@ + emit_call_impl(m, sig, name, plans)
}

/// The names of a parameter list, as owned strings.
fn arg_names(args: &Vec<SimpleArg>) -> (r: Vec<String>)
    ensures
        r.deep_view() == names_of(args.deep_view()),
{
    let mut r: Vec<String> = Vec::new();
    let mut i: usize = 0;
    while i < args.len()
        invariant
            i <= args.len(),
            r.deep_view().len() == i,
            forall|k: int| 0 <= k < i ==> #[trigger] r.deep_view()[k] == args.deep_view()[k].name,
        decreases args.len() - i,
    {
        let ghost prev = r.deep_view();
        let s = args[i].name.as_str().to_owned();
        r.push(s);
        proof {
            assert(r.deep_view() =~= prev.push(args.deep_view()[i as int].name));
        }
        i += 1;
    }
    proof {
        assert(r.deep_view() =~= names_of(args.deep_view()));
    }
    r
}

/// The types of a parameter list, as owned strings.
fn arg_tys(args: &Vec<SimpleArg>) -> (r: Vec<String>)
    ensures
        r.deep_view() == tys_of(args.deep_view()),
{
    let mut r: Vec<String> = Vec::new();
    let mut i: usize = 0;
    while i < args.len()
        invariant
            i <= args.len(),
            r.deep_view().len() == i,
            forall|k: int| 0 <= k < i ==> #[trigger] r.deep_view()[k] == args.deep_view()[k].ty,
        decreases args.len() - i,
    {
        let ghost prev = r.deep_view();
        let s = args[i].ty.as_str().to_owned();
        r.push(s);
        proof {
            assert(r.deep_view() =~= prev.push(args.deep_view()[i as int].ty));
        }
        i += 1;
    }
    proof {
        assert(r.deep_view() =~= tys_of(args.deep_view()));
    }
    r
}

/// The names of the captured parameters followed by the names of the
/// common parameters, as owned strings.
fn all_arg_names(cap: &Vec<SimpleArg>, common: &Vec<SimpleArg>) -> (r: Vec<String>)
    ensures
        r.deep_view() == names_of(cap.deep_view()) + names_of(common.deep_view()),
{
    let mut r: Vec<String> = arg_names(cap);
    let more = arg_names(common);
    let mut i: usize = 0;
    while i < more.len()
        invariant
            i <= more.len(),
            more.deep_view() == names_of(common.deep_view()),
            r.deep_view() == names_of(cap.deep_view()) + names_of(common.deep_view()).take(
                i as int,
            ),
        decreases more.len() - i,
    {
        let ghost prev = r.deep_view();
        let s = more[i].as_str().to_owned();
        r.push(s);
        proof {
            assert(r.deep_view() =~= prev.push(names_of(common.deep_view())[i as int]));
            assert(r.deep_view() =~= names_of(cap.deep_view()) + names_of(
                common.deep_view(),
            ).take(i + 1));
        }
        i += 1;
    }
    proof {
        assert(names_of(cap.deep_view()) + names_of(common.deep_view()).take(
            more.len() as int,
        ) =~= names_of(cap.deep_view()) + names_of(common.deep_view()));
    }
    r
}

/// Appends the texts joined with `", "`.
#[verifier::loop_isolation(false)]
fn push_join(out: &mut String, xs: &Vec<String>)
    ensures
        final(out)@ == old(out)@ + join_comma(xs.deep_view(), xs.len() as int),
{
    let ghost base = out@;
    let mut k: usize = 0;
    while k < xs.len()
        invariant
            k <= xs.len(),
            out@ == base + join_comma(xs.deep_view(), k as int),
        decreases xs.len() - k,
    {
        if k > 0 {
            out.append(", ");
        }
        out.append(xs[k].as_str());
        proof {
            assert(out@ =~= base + join_comma(xs.deep_view(), k + 1));
        }
        k += 1;
    }
    proof {
        assert(base + join_comma(xs.deep_view(), 0) =~= base);
    }
}

/// Appends the texts joined with `", "` inside parentheses.
fn push_tuple(out: &mut String, xs: &Vec<String>)
    ensures
        final(out)@ == old(out)@ + tuple_of(xs.deep_view()),
{
    out.append("(");
    push_join(out, xs);
    out.append(")");
    proof {
        assert(out@ =~= old(out)@ + tuple_of(xs.deep_view()));
    }
}

/// Appends `", name: Type"` for each parameter.
#[verifier::loop_isolation(false)]
fn push_param_decls(out: &mut String, args: &Vec<SimpleArg>)
    ensures
        final(out)@ == old(out)@ + param_decls(args.deep_view(), args.len() as int),
{
    let ghost base = out@;
    let mut k: usize = 0;
    while k < args.len()
        invariant
            k <= args.len(),
            out@ == base + param_decls(args.deep_view(), k as int),
        decreases args.len() - k,
    {
        out.append(", ");
        out.append(args[k].name.as_str());
        out.append(": ");
        out.append(args[k].ty.as_str());
        proof {
            assert(out@ =~= base + param_decls(args.deep_view(), k + 1));
        }
        k += 1;
    }
    proof {
        assert(base + param_decls(args.deep_view(), 0) =~= base);
    }
}

/// Appends the generic parameter list in angle brackets, when there is
/// one.
fn push_generics(out: &mut String, g: &Option<String>)
    ensures
        final(out)@ == old(out)@ + generics_text(g.deep_view()),
{
    match g {
        Some(t) => {
            out.append("<");
            out.append(t.as_str());
            out.append(">");
            proof {
                assert(out@ =~= old(out)@ + generics_text(g.deep_view()));
            }
        },
        None => {
            proof {
                assert(out@ =~= old(out)@ + generics_text(g.deep_view()));
            }
        },
    }
}

/// Appends the ` -> Type` suffix, when there is a return type.
fn push_ret_suffix(out: &mut String, o: &Option<String>)
    ensures
        final(out)@ == old(out)@ + ret_suffix(o.deep_view()),
{
    match o {
        Some(t) => {
            out.append(" -> ");
            out.append(t.as_str());
            proof {
                assert(out@ =~= old(out)@ + ret_suffix(o.deep_view()));
            }
        },
        None => {
            proof {
                assert(out@ =~= old(out)@ + ret_suffix(o.deep_view()));
            }
        },
    }
}

/// Appends the ` where Constraints` suffix, when there is one.
fn push_where_suffix(out: &mut String, w: &Option<String>)
    ensures
        final(out)@ == old(out)@ + where_suffix(w.deep_view()),
{
    match w {
        Some(t) => {
            out.append(" where ");
            out.append(t.as_str());
            proof {
                assert(out@ =~= old(out)@ + where_suffix(w.deep_view()));
            }
        },
        None => {
            proof {
                assert(out@ =~= old(out)@ + where_suffix(w.deep_view()));
            }
        },
    }
}

/// Appends the visibility and a space, when the visibility is not empty.
fn push_vis_prefix(out: &mut String, vis: &String)
    ensures
        final(out)@ == old(out)@ + vis_prefix(vis@),
{
    if !vis.as_str().is_empty() {
        out.append(vis.as_str());
        out.append(" ");
        proof {
            assert(out@ =~= old(out)@ + vis_prefix(vis@));
        }
    } else {
        proof {
            assert(out@ =~= old(out)@ + vis_prefix(vis@));
        }
    }
}

/// Appends one variant declaration line.
fn push_variant(out: &mut String, p: &VariantPlan)
    ensures
        final(out)@ == old(out)@ + variant_decl(p.deep_view()),
{
    out.append("    ");
    out.append(p.tag.as_str());
    proof {
        assert(out@ =~= old(out)@ + "    "@ + p.deep_view().tag);
    }
    let ghost mid = out@;
    if p.captured.len() > 0 {
        out.append("(");
        let tys = arg_tys(&p.captured);
        push_join(out, &tys);
        out.append(")");
        proof {
            assert(tys.deep_view() == tys_of(p.deep_view().captured));
            assert(tys.deep_view().len() == p.deep_view().captured.len());
            assert(out@ =~= mid + ("("@ + join_comma(
                tys_of(p.deep_view().captured),
                p.deep_view().captured.len() as int,
            ) + ")"@));
        }
    } else {
        proof {
            assert(out@ =~= mid + Seq::<char>::empty());
        }
    }
    out.append(",\n");
    proof {
        assert(out@ =~= old(out)@ + variant_decl(p.deep_view()));
    }
}

/// Appends one dispatch arm.
fn push_arm(out: &mut String, p: &VariantPlan, sig: &Signature, mod_name: &String)
    ensures
        final(out)@ == old(out)@ + emit_arm(p.deep_view(), sig.deep_view(), mod_name@),
{
    out.append("            Self::");
    out.append(p.tag.as_str());
    if p.captured.len() > 0 {
        out.append("(");
        let cap_names = arg_names(&p.captured);
        push_join(out, &cap_names);
        out.append(")");
    }
    out.append(" => ");
    let ghost mid = out@;
    out.append(mod_name.as_str());
    out.append("::");
    out.append(p.func.as_str());
    out.append("(");
    let all_names = all_arg_names(&p.captured, &sig.inputs);
    push_join(out, &all_names);
    out.append("),\n");
    proof {
        let pv = p.deep_view();
        let sv = sig.deep_view();
        assert(all_names.deep_view().len() == pv.captured.len() + sv.inputs.len());
        assert(mid =~= old(out)@ + "            Self::"@ + pv.tag + (if pv.captured.len() == 0 {
            Seq::<char>::empty()
        } else {
            "("@ + join_comma(names_of(pv.captured), pv.captured.len() as int) + ")"@
        }) + " => "@);
        assert(out@ =~= old(out)@ + emit_arm(pv, sv, mod_name@));
    }
}

/// The candidate body, re-emitted.
#[verifier::loop_isolation(false)]
fn emit_module_x(m: &ModuleBody, skip: usize) -> (r: String)
    requires
        skip as int == first_derive(m.attrs.deep_view(), 0),
    ensures
        r@ == emit_module(m.deep_view()),
{
    let mut out = String::new();
    let ghost attrs = m.attrs.deep_view();
    let mut k: usize = 0;
    while k < m.attrs.len()
        invariant
            k <= m.attrs.len(),
            out@ == emit_attrs(attrs, skip as int, k as int),
        decreases m.attrs.len() - k,
    {
        if k != skip {
            out.append(m.attrs[k].text.as_str());
            out.append("\n");
        }
        proof {
            assert(out@ =~= emit_attrs(attrs, skip as int, k + 1));
        }
        k += 1;
    }
    push_vis_prefix(&mut out, &m.vis);
    out.append("mod ");
    out.append(m.name.as_str());
    out.append(" {\n");
    let ghost head = out@;
    proof {
        assert(head =~= emit_attrs(attrs, skip as int, attrs.len() as int) + vis_prefix(
            m.vis@,
        ) + "mod "@ + m.name@ + " {\n"@);
    }
    let ghost items = m.items.deep_view();
    let mut j: usize = 0;
    while j < m.items.len()
        invariant
            j <= m.items.len(),
            out@ == head + emit_items(items, j as int),
        decreases m.items.len() - j,
    {
        match &m.items[j] {
            Item::Function(f) => {
                out.append(f.text.as_str());
            },
            Item::Other(t) => {
                out.append(t.as_str());
            },
        }
        out.append("\n");
        proof {
            assert(out@ =~= head + emit_items(items, j + 1));
        }
        j += 1;
    }
    out.append("}\n");
    proof {
        assert(out@ =~= emit_module(m.deep_view()));
    }
    out
}

/// The tagged-union declaration.
#[verifier::loop_isolation(false)]
fn emit_union_x(m: &ModuleBody, skip: usize, name: &String, plans: &Vec<VariantPlan>) -> (r:
    String)
    requires
        skip as int == first_derive(m.attrs.deep_view(), 0),
    ensures
        r@ == emit_union_decl(m.deep_view(), name@, plans.deep_view()),
{
    let mut out = String::new();
    if skip < m.attrs.len() {
        out.append(m.attrs[skip].text.as_str());
        out.append("\n");
    }
    push_vis_prefix(&mut out, &m.vis);
    out.append("enum ");
    out.append(name.as_str());
    out.append(" {\n");
    let ghost head = out@;
    let ghost pv = plans.deep_view();
    proof {
        let fd = first_derive(m.attrs.deep_view(), 0);
        assert(head =~= (if fd < m.attrs.deep_view().len() {
            m.attrs.deep_view()[fd].text + "\n"@
        } else {
            Seq::<char>::empty()
        }) + vis_prefix(m.vis@) + "enum "@ + name@ + " {\n"@);
    }
    let mut k: usize = 0;
    while k < plans.len()
        invariant
            k <= plans.len(),
            out@ == head + emit_variants(pv, k as int),
        decreases plans.len() - k,
    {
        push_variant(&mut out, &plans[k]);
        proof {
            assert(out@ =~= head + emit_variants(pv, k + 1));
        }
        k += 1;
    }
    out.append("}\n");
    proof {
        assert(out@ =~= emit_union_decl(m.deep_view(), name@, plans.deep_view()));
    }
    out
}

/// The uniform calling-convention impl.
fn emit_defn_x(sig: &Signature, name: &String) -> (r: String)
    ensures
        r@ == emit_defn_impl(sig.deep_view(), name@),
{
    let names = arg_names(&sig.inputs);
    let tys = arg_tys(&sig.inputs);
    let mut out = String::new();
    out.append("impl");
    push_generics(&mut out, &sig.generics);
    out.append(" defunctionalize::DeFn<");
    push_tuple(&mut out, &tys);
    out.append("> for ");
    out.append(name.as_str());
    push_where_suffix(&mut out, &sig.where_clause);
    out.append(" {\n");
    out.append("    type Output = ");
    match &sig.output {
        Some(t) => out.append(t.as_str()),
        None => out.append("()"),
    }
    out.append(";\n\n");
    let ghost mid = out@;
    proof {
        let sv = sig.deep_view();
        assert(mid =~= "impl"@ + generics_text(sv.generics) + " defunctionalize::DeFn<"@
            + tuple_of(tys_of(sv.inputs)) + "> for "@ + name@ + where_suffix(sv.where_clause)
            + " {\n"@ + "    type Output = "@ + output_type(sv.output) + ";\n\n"@);
    }
    out.append("    fn call(self, ");
    push_tuple(&mut out, &names);
    out.append(": ");
    push_tuple(&mut out, &tys);
    out.append(")");
    push_ret_suffix(&mut out, &sig.output);
    out.append(" {\n");
    out.append("        self.call(");
    push_join(&mut out, &names);
    out.append(")\n");
    out.append("    }\n}\n");
    proof {
        assert(out@ =~= emit_defn_impl(sig.deep_view(), name@));
    }
    out
}

/// The dispatch method.
#[verifier::loop_isolation(false)]
fn emit_call_x(m: &ModuleBody, sig: &Signature, name: &String, plans: &Vec<VariantPlan>) -> (r:
    String)
    ensures
        r@ == emit_call_impl(m.deep_view(), sig.deep_view(), name@, plans.deep_view()),
{
    let mut out = String::new();
    out.append("impl ");
    out.append(name.as_str());
    out.append(" {\n");
    out.append("    ");
    push_vis_prefix(&mut out, &m.vis);
    out.append("fn call");
    push_generics(&mut out, &sig.generics);
    out.append("(self");
    push_param_decls(&mut out, &sig.inputs);
    out.append(")");
    push_ret_suffix(&mut out, &sig.output);
    push_where_suffix(&mut out, &sig.where_clause);
    out.append(" {\n");
    out.append("        match self {\n");
    let ghost head = out@;
    let ghost pv = plans.deep_view();
    let ghost sv = sig.deep_view();
    proof {
        assert(head =~= "impl "@ + name@ + " {\n"@ + "    "@ + vis_prefix(m.vis@) + "fn call"@
            + generics_text(sv.generics) + "(self"@ + param_decls(
            sv.inputs,
            sv.inputs.len() as int,
        ) + ")"@ + ret_suffix(sv.output) + where_suffix(sv.where_clause) + " {\n"@
            + "        match self {\n"@);
    }
    let mut k: usize = 0;
    while k < plans.len()
        invariant
            k <= plans.len(),
            out@ == head + emit_arms(pv, sv, m.name@, k as int),
        decreases plans.len() - k,
    {
        push_arm(&mut out, &plans[k], sig, &m.name);
        proof {
            assert(out@ =~= head + emit_arms(pv, sv, m.name@, k + 1));
        }
        k += 1;
    }
    out.append("        }\n    }\n}\n");
    proof {
        assert(out@ =~= emit_call_impl(m.deep_view(), sig.deep_view(), name@, plans.deep_view()));
    }
    out
}

/// The index of the first derivation attribute of the body, or the number
/// of attributes when there is none.
pub fn find_first_derive(attrs: &Vec<Attr>) -> (r: usize)
    ensures
        r as int == first_derive(attrs.deep_view(), 0),
{
    let mut k: usize = 0;
    while k < attrs.len()
        invariant
            k <= attrs.len(),
            first_derive(attrs.deep_view(), 0) == first_derive(attrs.deep_view(), k as int),
        decreases attrs.len() - k,
    {
        if attrs[k].derive {
            proof {
                assert(attrs.deep_view()[k as int] == attrs@[k as int].deep_view());
            }
            return k;
        }
        proof {
            assert(attrs.deep_view()[k as int] == attrs@[k as int].deep_view());
        }
        k += 1;
    }
    k
}

/// Assembles the whole output text from the body, the parsed signature
/// pattern, the union name and the planned variants.
pub fn emit(m: &ModuleBody, sig: &Signature, name: &String, plans: &Vec<VariantPlan>) -> (r:
    String)
    ensures
        r@ == spec_emit(m.deep_view(), sig.deep_view(), name@, plans.deep_view()),
{
    let skip = find_first_derive(&m.attrs);
    let mut out = emit_module_x(m, skip);
    out.append("\n");
    let part = emit_union_x(m, skip, name, plans);
    out.append(part.as_str());
    out.append("\n");
    let part2 = emit_defn_x(sig, name);
    out.append(part2.as_str());
    out.append("\n");
    let part3 = emit_call_x(m, sig, name, plans);
    out.append(part3.as_str());
    proof {
        assert(out@ =~= spec_emit(m.deep_view(), sig.deep_view(), name@, plans.deep_view()));
    }
    out
}

} // verus!

verus! {

/// The declaration lines from `j` (inclusive) to `k` (exclusive).
pub open spec fn emit_items_from(items: Seq<ItemSpec>, j: int, k: int) -> Seq<char>
    decreases k - j,
{
    if k <= j {
        Seq::empty()
    } else {
        emit_items_from(items, j, k - 1) + item_text(items[k - 1]) + "\n"@
    }
}

proof fn lemma_emit_items_split(items: Seq<ItemSpec>, j: int, k: int)
    requires
        0 <= j <= k,
    ensures
        emit_items(items, k) == emit_items(items, j) + emit_items_from(items, j, k),
    decreases k - j,
{
    if k > j {
        lemma_emit_items_split(items, j, k - 1);
        assert(emit_items(items, k) =~= emit_items(items, j) + emit_items_from(items, j, k));
    } else {
        assert(emit_items(items, k) =~= emit_items(items, j) + emit_items_from(items, j, k));
    }
}

proof fn lemma_emit_items_from_first(items: Seq<ItemSpec>, j: int, k: int)
    requires
        0 <= j < k,
    ensures
        emit_items_from(items, j, k) == (item_text(items[j]) + "\n"@) + emit_items_from(
            items,
            j + 1,
            k,
        ),
    decreases k - j,
{
    if k == j + 1 {
        assert(emit_items_from(items, j, j) =~= Seq::<char>::empty());
        assert(emit_items_from(items, j + 1, k) =~= Seq::<char>::empty());
        assert(emit_items_from(items, j, k) =~= (item_text(items[j]) + "\n"@)
            + emit_items_from(items, j + 1, k));
    } else {
        lemma_emit_items_from_first(items, j, k - 1);
        assert(emit_items_from(items, j, k) =~= (item_text(items[j]) + "\n"@)
            + emit_items_from(items, j + 1, k));
    }
}

/// Where declaration `j` of the body starts in the emitted output.
pub open spec fn item_offset(m: ModuleSpec, j: int) -> int {
    (emit_attrs(m.attrs, first_derive(m.attrs, 0), m.attrs.len() as int).len() + vis_prefix(
        m.vis,
    ).len() + "mod "@.len() + m.name.len() + " {\n"@.len() + emit_items(m.items, j).len()) as int
}

/// Body preservation: every declaration of the candidate body — functions
/// and non-functions alike — appears verbatim in the emitted output, at
/// its own offset, and the offsets keep declaration order.
pub proof fn lemma_body_preserved(
    m: ModuleSpec,
    sig: SignatureSpec,
    name: Seq<char>,
    plans: Seq<PlanSpec>,
    j: int,
)
    requires
        0 <= j < m.items.len(),
    ensures
        0 <= item_offset(m, j),
        item_offset(m, j) + item_text(m.items[j]).len() <= spec_emit(m, sig, name, plans).len(),
        spec_emit(m, sig, name, plans).subrange(
            item_offset(m, j),
            item_offset(m, j) + item_text(m.items[j]).len(),
        ) == item_text(m.items[j]),
        j + 1 < m.items.len() ==> item_offset(m, j) < item_offset(m, j + 1),
{
    let out = spec_emit(m, sig, name, plans);
    let modtext = emit_module(m);
    let items = m.items;
    let n: int = items.len() as int;
    let t = item_text(items[j]);
    let off = item_offset(m, j);
    lemma_emit_items_split(items, j, n);
    lemma_emit_items_from_first(items, j, n);
    let pre = emit_attrs(m.attrs, first_derive(m.attrs, 0), m.attrs.len() as int) + vis_prefix(
        m.vis,
    ) + "mod "@ + m.name + " {\n"@;
    let head = pre + emit_items(items, j);
    let tail = "\n"@ + emit_items_from(items, j + 1, n) + "}\n"@;
    assert(modtext =~= head + t + tail);
    assert(head.len() == off);
    assert(modtext.subrange(off, off + t.len()) =~= t);
    assert(out.subrange(off, off + t.len()) =~= modtext.subrange(off, off + t.len()));
    if j + 1 < m.items.len() {
        reveal_strlit("\n");
        assert(emit_items(items, j + 1) =~= emit_items(items, j) + t + "\n"@);
    }
}

} // verus!
