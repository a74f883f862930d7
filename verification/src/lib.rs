//! Defunctionalization code generation: from a compact signature pattern
//! and a body of candidate function declarations, produce a closed tagged
//! union with one variant per eligible function (carrying its captured
//! leading parameters), a dispatch method presenting the pattern's common
//! call shape, and an impl binding the union into a uniform single-tuple
//! calling convention. The whole transformation — grammar, candidate
//! analysis, variant planning and text emission — is specified by spec
//! functions and proved; its guarantees are stated once and for all in
//! [`laws`].

use vstd::prelude::*;

pub mod ast;
pub mod demo;
pub mod emit;
pub mod laws;
pub mod parse;
pub mod plan;

use crate::ast::{Error, ModuleBody, ModuleSpec, Signature, SignatureSpec};
use crate::emit::{emit, spec_emit};
use crate::parse::spec_parse_signature;
use crate::plan::{eligible_functions, pascal_case, pascal_of, plan_variants, spec_eligible,
    spec_plan};

verus! {

/// A first-class value standing for "one of several functions, partially
/// applied to its own leading arguments": handing it the tuple of the
/// remaining common arguments runs the function it stands for.
///
/// Generated tagged unions implement this trait once per common-argument
/// tuple type, so generic code can drive any such union through one
/// uniform calling convention.
pub trait DeFn<Input> {
    type Output;

    fn call(self, args: Input) -> Self::Output;
}

/// The name of the generated union: the pattern's own name when it gives
/// one, else the camel-cased name of the body.
pub open spec fn spec_union_name(sig: SignatureSpec, m: ModuleSpec) -> Seq<char> {
    match sig.name {
        Some(n) => n,
        None => pascal_of(m.name),
    }
}

/// The whole transformation, as one function of the inputs: parse the
/// signature pattern, plan one variant per eligible function, and emit
/// the output text — or the first diagnostic, which aborts everything.
pub open spec fn spec_defunctionalize(sig_text: Seq<char>, m: ModuleSpec) -> Result<
    Seq<char>,
    Error,
> {
    match spec_parse_signature(sig_text) {
        Err(p) => Err(Error::Parse { at: p as usize }),
        Ok(sig) => match spec_plan(spec_eligible(m.items), sig.inputs.len() as int) {
            Err(e) => Err(e),
            Ok(plans) => Ok(spec_emit(m, sig, spec_union_name(sig, m), plans)),
        },
    }
}

/// Runs the transformation: `sig_text` is the signature-pattern text,
/// `module` the candidate body. On success the returned text holds the
/// body itself, the tagged-union declaration, the uniform
/// calling-convention impl and the dispatch method; on failure the first
/// diagnostic, and no partial output.
pub fn defunctionalize(sig_text: &str, module: &ModuleBody) -> (r: Result<String, Error>)
    ensures
        match r {
            Ok(out) => spec_defunctionalize(sig_text@, module.deep_view()) == Ok::<
                Seq<char>,
                Error,
            >(out@),
            Err(e) => spec_defunctionalize(sig_text@, module.deep_view()) == Err::<
                Seq<char>,
                Error,
            >(e),
        },
{
    let sig = match Signature::parse(sig_text) {
        Ok(s) => s,
        Err(e) => {
            return Err(e);
        },
    };
    let funcs = eligible_functions(&module.items);
    let plans = match plan_variants(&funcs, sig.inputs.len()) {
        Ok(p) => p,
        Err(e) => {
            return Err(e);
        },
    };
    let name: String = match &sig.name {
        Some(n) => n.as_str().to_owned(),
        None => pascal_case(module.name.as_str()),
    };
    Ok(emit(module, &sig, &name, &plans))
}

} // verus!
