use vstd::prelude::*;
use crate::buffers::DoubleBuffer;
use crate::error::HeatError;
use crate::formula::{Arithmetic, Coefficients};
use crate::grid::{Field, Grid};
use crate::laws::lemma_evolves_weaken;
use crate::stencil::{advances, rule_of, total};

verus! {

/// `end` is what `passes` successive passes of `rule` may make of `start`.
pub open spec fn evolves<T>(
    rule: spec_fn((T, T, T, T, T), T) -> bool,
    start: Field<T>,
    end: Field<T>,
    passes: nat,
) -> bool
    decreases passes,
{
    if passes == 0 {
        end == start
    } else {
        exists|mid: Field<T>|
            evolves(rule, start, mid, (passes - 1) as nat) && #[trigger] advances(rule, mid, end)
    }
}

/// The field has no interior cell.
pub open spec fn degenerate<T>(field: Field<T>) -> bool {
    field.rows < 3 || field.cols < 3
}

/// Evolves `field` by `iterations` stencil passes of `rule` and returns the
/// result as a new grid; `field` is not changed. A field with fewer than
/// three rows or columns is refused.
pub fn evolve_with<T: Copy, F: Fn(T, T, T, T, T) -> T>(
    field: &Grid<T>,
    rule: &F,
    iterations: u64,
) -> (r: Result<Grid<T>, HeatError>)
    requires
        field@.wf(),
        total(*rule),
    ensures
        r is Err <==> degenerate(field@),
        r is Err ==> r == Err::<Grid<T>, HeatError>(HeatError::InputShape),
        r is Ok ==> evolves(rule_of(*rule), field@, r.unwrap()@, iterations as nat),
        r is Ok ==> r.unwrap()@.wf() && r.unwrap()@.same_shape(field@),
        r is Ok ==> forall|i: int, j: int|
            field@.boundary(i, j) ==> #[trigger] r.unwrap()@.at(i, j) == field@.at(i, j),
        r is Ok && iterations == 0 ==> r.unwrap()@ == field@,
{
    if field.rows() < 3 || field.cols() < 3 {
        return Err(HeatError::InputShape);
    }
    let mut buffers = DoubleBuffer::new(field);
    let mut done: u64 = 0;
    while done < iterations
        invariant
            done <= iterations,
            buffers.wf(),
            total(*rule),
            evolves(rule_of(*rule), field@, buffers.current(), done as nat),
            buffers.current().same_shape(field@),
            forall|i: int, j: int|
                field@.boundary(i, j) ==> #[trigger] buffers.current().at(i, j) == field@.at(i, j),
        decreases iterations - done,
    {
        let ghost before = buffers.current();
        buffers.step(rule);
        done += 1;
        assert(advances(rule_of(*rule), before, buffers.current()));
    }
    Ok(buffers.into_latest())
}

/// `end` is what `passes` passes of the five-point update may make of
/// `start`, with the spacings squared by the arithmetic's own product.
pub open spec fn heat_evolves<
    T,
    A: Fn(T, T) -> T,
    S: Fn(T, T) -> T,
    M: Fn(T, T) -> T,
    D: Fn(T, T) -> T,
    Z: Fn(T) -> bool,
>(
    ops: Arithmetic<T, A, S, M, D, Z>,
    dx: T,
    dy: T,
    diffusion: T,
    dt: T,
    start: Field<T>,
    end: Field<T>,
    passes: nat,
) -> bool {
    exists|dx2: T, dy2: T|
        {
            &&& #[trigger] call_ensures(ops.mul, (dx, dx), dx2)
            &&& #[trigger] call_ensures(ops.mul, (dy, dy), dy2)
            &&& evolves(
                ops.five_point_rule(Coefficients { dx2, dy2, diffusion, dt }),
                start,
                end,
                passes,
            )
        }
}

/// Evolves the temperature `field` by `iterations` steps of the explicit
/// heat equation with spacings `dx` and `dy`, the given diffusion
/// coefficient and time step `dt`. The result is a new grid of the same
/// shape; `field` is not changed.
///
/// The spacings are divisors of the update: one that the arithmetic tells
/// to be zero is refused, as is a field with fewer than three rows or
/// columns.
pub fn evolve<
    T: Copy,
    A: Fn(T, T) -> T,
    S: Fn(T, T) -> T,
    M: Fn(T, T) -> T,
    D: Fn(T, T) -> T,
    Z: Fn(T) -> bool,
>(
    field: &Grid<T>,
    ops: &Arithmetic<T, A, S, M, D, Z>,
    dx: T,
    dy: T,
    diffusion: T,
    dt: T,
    iterations: u64,
) -> (r: Result<Grid<T>, HeatError>)
    requires
        field@.wf(),
        ops.total(),
    ensures
        r is Err ==> r == Err::<Grid<T>, HeatError>(HeatError::InputShape),
        r is Err ==> degenerate(field@) || call_ensures(ops.is_zero, (dx,), true) || call_ensures(
            ops.is_zero,
            (dy,),
            true,
        ),
        r is Ok ==> !degenerate(field@) && call_ensures(ops.is_zero, (dx,), false) && call_ensures(
            ops.is_zero,
            (dy,),
            false,
        ),
        r is Ok ==> heat_evolves(*ops, dx, dy, diffusion, dt, field@, r.unwrap()@, iterations as nat),
        r is Ok ==> r.unwrap()@.wf() && r.unwrap()@.same_shape(field@),
        r is Ok ==> forall|i: int, j: int|
            field@.boundary(i, j) ==> #[trigger] r.unwrap()@.at(i, j) == field@.at(i, j),
        r is Ok && iterations == 0 ==> r.unwrap()@ == field@,
{
    if field.rows() < 3 || field.cols() < 3 {
        return Err(HeatError::InputShape);
    }
    if (ops.is_zero)(dx) {
        return Err(HeatError::InputShape);
    }
    if (ops.is_zero)(dy) {
        return Err(HeatError::InputShape);
    }
    let dx2 = (ops.mul)(dx, dx);
    let dy2 = (ops.mul)(dy, dy);
    let c = &Coefficients { dx2, dy2, diffusion, dt };
    let rule = |mid: T, left: T, right: T, up: T, down: T| -> (r: T)
        ensures
            ops.five_point_is(*c, mid, left, right, up, down, r),
        { ops.five_point(c, mid, left, right, up, down) };
    let evolved = evolve_with(field, &rule, iterations);
    proof {
        lemma_evolves_weaken(
            rule_of(rule),
            ops.five_point_rule(*c),
            field@,
            evolved.unwrap()@,
            iterations as nat,
        );
    }
    evolved
}

} // verus!
