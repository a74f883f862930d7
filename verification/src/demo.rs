//! A hand-written instance of the shape the emitter generates, proved
//! against the functions it dispatches to: two functions sharing one
//! trailing parameter, the union with one variant per function, the
//! dispatch method, and the uniform calling-convention impl. Dispatching a
//! variant built for a function, with the common argument supplied last,
//! returns exactly what the function itself returns.

use vstd::prelude::*;

use crate::DeFn;

verus! {

/// What `add` computes.
pub open spec fn add_spec(base: int, delta: int) -> int {
    base + delta
}

/// What `scale` computes.
pub open spec fn scale_spec(base: int, factor: int) -> int {
    base * factor
}

/// Adds its captured base to the common argument.
pub fn add(base: i32, delta: i32) -> (r: i64)
    ensures
        r == add_spec(base as int, delta as int),
{
    base as i64 + delta as i64
}

/// Multiplies its captured base by the common argument.
pub fn scale(base: i32, factor: i32) -> (r: i64)
    ensures
        r == scale_spec(base as int, factor as int),
{
    proof {
        assert((base as int) * (factor as int) <= 0x7fff_ffff_ffff_ffff && (base as int) * (
        factor as int) >= -0x8000_0000_0000_0000) by (nonlinear_arith)
            requires
                -0x8000_0000 <= base as int <= 0x7fff_ffff,
                -0x8000_0000 <= factor as int <= 0x7fff_ffff,
        ;
    }
    (base as i64) * (factor as i64)
}

/// The tagged union standing for "one of the two functions, partially
/// applied to its base": one variant per function, in declaration order,
/// each carrying the captured leading argument.
pub enum Calc {
    Add(i32),
    Scale(i32),
}

impl Calc {
    /// The dispatch method: an exhaustive match that hands each variant's
    /// captured argument, followed by the common argument, to its
    /// function. Round trip: the result equals calling that function
    /// directly on the same arguments.
    pub fn call(self, delta_or_factor: i32) -> (r: i64)
        ensures
            self is Add ==> r == add_spec(self->Add_0 as int, delta_or_factor as int),
            self is Scale ==> r == scale_spec(self->Scale_0 as int, delta_or_factor as int),
    {
        match self {
            Calc::Add(base) => crate::demo::add(base, delta_or_factor),
            Calc::Scale(base) => crate::demo::scale(base, delta_or_factor),
        }
    }
}

impl DeFn<i32> for Calc {
    type Output = i64;

    /// The uniform calling convention: unpack the common-argument tuple
    /// (a single argument here) and forward to the dispatch method, so the
    /// result is exactly what the variant's own function returns.
    fn call(self, args: i32) -> (r: i64)
        ensures
            self is Add ==> r == add_spec(self->Add_0 as int, args as int),
            self is Scale ==> r == scale_spec(self->Scale_0 as int, args as int),
    {
        self.call(args)
    }
}

} // verus!
