use vstd::prelude::*;
use crate::engine::{evolves, heat_evolves};
use crate::formula::{Arithmetic, Coefficients};
use crate::grid::{lemma_position_bound, Field};
use crate::stencil::{advances, neighbourhood};

verus! {

/// Every cell of the field holds `value`.
pub open spec fn uniform<T>(field: Field<T>, value: T) -> bool {
    forall|i: int, j: int| field.has(i, j) ==> #[trigger] field.at(i, j) == value
}

/// Whatever the rule returns for five copies of `value` is `value` again.
pub open spec fn keeps<T>(rule: spec_fn((T, T, T, T, T), T) -> bool, value: T) -> bool {
    forall|r: T| #[trigger] rule((value, value, value, value, value), r) ==> r == value
}

/// The rule has at most one result for each neighbourhood.
pub open spec fn single_valued<T>(rule: spec_fn((T, T, T, T, T), T) -> bool) -> bool {
    forall|n: (T, T, T, T, T), a: T, b: T| #[trigger] rule(n, a) && #[trigger] rule(n, b) ==> a == b
}

/// The rule commutes with `map`: a result for five values, mapped, is a
/// result for the five mapped values.
pub open spec fn commutes<T>(rule: spec_fn((T, T, T, T, T), T) -> bool, map: spec_fn(T) -> T) -> bool {
    forall|n: (T, T, T, T, T), r: T| #[trigger]
        rule(n, r) ==> rule((map(n.0), map(n.1), map(n.2), map(n.3), map(n.4)), map(r))
}

/// The field with `map` applied to every cell.
pub open spec fn mapped<T>(field: Field<T>, map: spec_fn(T) -> T) -> Field<T> {
    Field { rows: field.rows, cols: field.cols, cells: field.cells.map_values(map) }
}

/// No pass at all leaves the field as it is, and nothing else does.
pub proof fn lemma_zero_passes<T>(
    rule: spec_fn((T, T, T, T, T), T) -> bool,
    start: Field<T>,
    end: Field<T>,
)
    ensures
        evolves(rule, start, end, 0) <==> end == start,
{
}

/// A single pass is an evolution of one pass.
pub proof fn lemma_one_pass<T>(rule: spec_fn((T, T, T, T, T), T) -> bool, start: Field<T>, end: Field<T>)
    ensures
        evolves(rule, start, end, 1) <==> advances(rule, start, end),
{
    if advances(rule, start, end) {
        assert(evolves(rule, start, start, 0));
    }
    if evolves(rule, start, end, 1) {
        let mid = choose|mid: Field<T>|
            evolves(rule, start, mid, 0) && #[trigger] advances(rule, mid, end);
        assert(mid == start);
    }
}

/// A rule that allows no more than another evolves a field to no more
/// than the other does.
pub proof fn lemma_evolves_weaken<T>(
    rule: spec_fn((T, T, T, T, T), T) -> bool,
    wider: spec_fn((T, T, T, T, T), T) -> bool,
    start: Field<T>,
    end: Field<T>,
    passes: nat,
)
    requires
        evolves(rule, start, end, passes),
        forall|n: (T, T, T, T, T), r: T| #[trigger] rule(n, r) ==> wider(n, r),
    ensures
        evolves(wider, start, end, passes),
    decreases passes,
{
    if passes > 0 {
        let mid = choose|mid: Field<T>|
            evolves(rule, start, mid, (passes - 1) as nat) && #[trigger] advances(rule, mid, end);
        lemma_evolves_weaken(rule, wider, start, mid, (passes - 1) as nat);
        assert forall|i: int, j: int| mid.has(i, j) implies if mid.interior(i, j) {
            wider(neighbourhood(mid, i, j), #[trigger] end.at(i, j))
        } else {
            end.at(i, j) == mid.at(i, j)
        } by {
            if mid.interior(i, j) {
                assert(rule(neighbourhood(mid, i, j), end.at(i, j)));
            }
        }
        assert(evolves(wider, start, mid, (passes - 1) as nat) && advances(wider, mid, end));
    }
}

/// Evolutions chain: `m` passes followed by `n` passes are `m + n` passes.
pub proof fn lemma_evolves_chain<T>(
    rule: spec_fn((T, T, T, T, T), T) -> bool,
    start: Field<T>,
    mid: Field<T>,
    end: Field<T>,
    m: nat,
    n: nat,
)
    requires
        evolves(rule, start, mid, m),
        evolves(rule, mid, end, n),
    ensures
        evolves(rule, start, end, m + n),
    decreases n,
{
    if n > 0 {
        let last = choose|last: Field<T>|
            evolves(rule, mid, last, (n - 1) as nat) && #[trigger] advances(rule, last, end);
        lemma_evolves_chain(rule, start, mid, last, m, (n - 1) as nat);
        assert(evolves(rule, start, last, (m + n - 1) as nat) && advances(rule, last, end));
    }
}

/// An evolution keeps the shape, and keeps a well-formed field well-formed.
pub proof fn lemma_shape_kept<T>(
    rule: spec_fn((T, T, T, T, T), T) -> bool,
    start: Field<T>,
    end: Field<T>,
    passes: nat,
)
    requires
        evolves(rule, start, end, passes),
    ensures
        end.same_shape(start),
        start.wf() ==> end.wf(),
    decreases passes,
{
    if passes > 0 {
        let mid = choose|mid: Field<T>|
            evolves(rule, start, mid, (passes - 1) as nat) && #[trigger] advances(rule, mid, end);
        lemma_shape_kept(rule, start, mid, (passes - 1) as nat);
    }
}

/// Boundary invariance: after any number of passes of any rule, every cell
/// of the first and last row and column holds what it held at the start.
pub proof fn lemma_boundary_kept<T>(
    rule: spec_fn((T, T, T, T, T), T) -> bool,
    start: Field<T>,
    end: Field<T>,
    passes: nat,
)
    requires
        evolves(rule, start, end, passes),
    ensures
        end.same_shape(start),
        forall|i: int, j: int| start.boundary(i, j) ==> #[trigger] end.at(i, j) == start.at(i, j),
    decreases passes,
{
    if passes > 0 {
        let mid = choose|mid: Field<T>|
            evolves(rule, start, mid, (passes - 1) as nat) && #[trigger] advances(rule, mid, end);
        lemma_boundary_kept(rule, start, mid, (passes - 1) as nat);
        assert forall|i: int, j: int| start.boundary(i, j) implies #[trigger] end.at(i, j)
            == start.at(i, j) by {
            assert(mid.has(i, j) && !mid.interior(i, j));
            assert(end.at(i, j) == mid.at(i, j));
        }
    }
}

/// Uniform steady state: where the rule keeps `value`, a field that holds
/// `value` in every cell still does after any number of passes.
pub proof fn lemma_uniform_kept<T>(
    rule: spec_fn((T, T, T, T, T), T) -> bool,
    start: Field<T>,
    end: Field<T>,
    passes: nat,
    value: T,
)
    requires
        evolves(rule, start, end, passes),
        uniform(start, value),
        keeps(rule, value),
    ensures
        end.same_shape(start),
        uniform(end, value),
    decreases passes,
{
    if passes > 0 {
        let mid = choose|mid: Field<T>|
            evolves(rule, start, mid, (passes - 1) as nat) && #[trigger] advances(rule, mid, end);
        lemma_uniform_kept(rule, start, mid, (passes - 1) as nat, value);
        assert forall|i: int, j: int| end.has(i, j) implies #[trigger] end.at(i, j) == value by {
            assert(mid.has(i, j));
            if mid.interior(i, j) {
                assert(mid.has(i, j - 1) && mid.has(i, j + 1) && mid.has(i - 1, j) && mid.has(
                    i + 1,
                    j,
                ));
                assert(neighbourhood(mid, i, j) == (value, value, value, value, value));
                assert(rule(neighbourhood(mid, i, j), end.at(i, j)));
            } else {
                assert(end.at(i, j) == mid.at(i, j));
            }
        }
    }
}

/// A uniform well-formed field is a fixed point of every rule that keeps
/// its value: the result equals the input.
pub proof fn lemma_uniform_fixed<T>(
    rule: spec_fn((T, T, T, T, T), T) -> bool,
    start: Field<T>,
    end: Field<T>,
    passes: nat,
    value: T,
)
    requires
        start.wf(),
        evolves(rule, start, end, passes),
        uniform(start, value),
        keeps(rule, value),
    ensures
        end == start,
{
    lemma_uniform_kept(rule, start, end, passes, value);
    lemma_shape_kept(rule, start, end, passes);
    start.lemma_equal_by_cells(end);
}

/// With a single-valued rule the start and the number of passes determine
/// the result.
pub proof fn lemma_result_determined<T>(
    rule: spec_fn((T, T, T, T, T), T) -> bool,
    start: Field<T>,
    one: Field<T>,
    two: Field<T>,
    passes: nat,
)
    requires
        start.wf(),
        single_valued(rule),
        evolves(rule, start, one, passes),
        evolves(rule, start, two, passes),
    ensures
        one == two,
    decreases passes,
{
    if passes > 0 {
        let mid_one = choose|mid: Field<T>|
            evolves(rule, start, mid, (passes - 1) as nat) && #[trigger] advances(rule, mid, one);
        let mid_two = choose|mid: Field<T>|
            evolves(rule, start, mid, (passes - 1) as nat) && #[trigger] advances(rule, mid, two);
        lemma_result_determined(rule, start, mid_one, mid_two, (passes - 1) as nat);
        assert forall|i: int, j: int| one.has(i, j) implies #[trigger] one.at(i, j) == two.at(
            i,
            j,
        ) by {
            assert(mid_one.has(i, j));
            if mid_one.interior(i, j) {
                assert(rule(neighbourhood(mid_one, i, j), one.at(i, j)));
                assert(rule(neighbourhood(mid_one, i, j), two.at(i, j)));
            } else {
                assert(one.at(i, j) == mid_one.at(i, j));
                assert(two.at(i, j) == mid_one.at(i, j));
            }
        }
        one.lemma_equal_by_cells(two);
    }
}

/// Mapping a well-formed field maps each of its cells.
pub proof fn lemma_mapped_at<T>(field: Field<T>, map: spec_fn(T) -> T, i: int, j: int)
    requires
        field.wf(),
        field.has(i, j),
    ensures
        mapped(field, map).at(i, j) == map(field.at(i, j)),
{
    lemma_position_bound(field.rows as int, field.cols as int, i, j);
}

/// One pass commutes with every cell map that the rule commutes with: if
/// `next` is a pass over `prev`, the mapped `next` is a pass over the
/// mapped `prev`. For a rule that is linear in its five arguments and a
/// map that scales by a constant, this is the linearity of a single step.
pub proof fn lemma_pass_commutes<T>(
    rule: spec_fn((T, T, T, T, T), T) -> bool,
    map: spec_fn(T) -> T,
    prev: Field<T>,
    next: Field<T>,
)
    requires
        prev.wf(),
        commutes(rule, map),
        advances(rule, prev, next),
    ensures
        advances(rule, mapped(prev, map), mapped(next, map)),
{
    let mprev = mapped(prev, map);
    let mnext = mapped(next, map);
    assert forall|i: int, j: int| mprev.has(i, j) implies if mprev.interior(i, j) {
        rule(neighbourhood(mprev, i, j), #[trigger] mnext.at(i, j))
    } else {
        mnext.at(i, j) == mprev.at(i, j)
    } by {
        lemma_mapped_at(prev, map, i, j);
        lemma_mapped_at(next, map, i, j);
        assert(prev.has(i, j));
        if prev.interior(i, j) {
            lemma_mapped_at(prev, map, i, j - 1);
            lemma_mapped_at(prev, map, i, j + 1);
            lemma_mapped_at(prev, map, i - 1, j);
            lemma_mapped_at(prev, map, i + 1, j);
            assert(rule(neighbourhood(prev, i, j), next.at(i, j)));
        } else {
            assert(next.at(i, j) == prev.at(i, j));
        }
    }
}

/// An evolution of any length commutes with every cell map that the rule
/// commutes with.
pub proof fn lemma_evolution_commutes<T>(
    rule: spec_fn((T, T, T, T, T), T) -> bool,
    map: spec_fn(T) -> T,
    start: Field<T>,
    end: Field<T>,
    passes: nat,
)
    requires
        start.wf(),
        commutes(rule, map),
        evolves(rule, start, end, passes),
    ensures
        evolves(rule, mapped(start, map), mapped(end, map), passes),
    decreases passes,
{
    if passes > 0 {
        let mid = choose|mid: Field<T>|
            evolves(rule, start, mid, (passes - 1) as nat) && #[trigger] advances(rule, mid, end);
        lemma_evolution_commutes(rule, map, start, mid, (passes - 1) as nat);
        lemma_shape_kept(rule, start, mid, (passes - 1) as nat);
        lemma_pass_commutes(rule, map, mid, end);
        assert(evolves(rule, mapped(start, map), mapped(mid, map), (passes - 1) as nat)
            && advances(rule, mapped(mid, map), mapped(end, map)));
    }
}

impl<
    T,
    A: Fn(T, T) -> T,
    S: Fn(T, T) -> T,
    M: Fn(T, T) -> T,
    D: Fn(T, T) -> T,
    Z: Fn(T) -> bool,
> Arithmetic<T, A, S, M, D, Z> {
    /// What the arithmetic has to grant for `value` to be steady: the second
    /// difference of three copies of `value` is always `zero`; `zero` divided
    /// by either squared spacing, added to itself or multiplied by the rate is
    /// `zero` again; and `value` plus `zero` is `value`.
    pub open spec fn steady(self, c: Coefficients<T>, value: T, zero: T) -> bool {
        &&& forall|twice: T, fall: T, bend: T|
            #[trigger] call_ensures(self.mul, (self.two, value), twice) && #[trigger] call_ensures(
                self.sub,
                (value, twice),
                fall,
            ) && #[trigger] call_ensures(self.add, (fall, value), bend) ==> bend == zero
        &&& forall|q: T| #[trigger] call_ensures(self.div, (zero, c.dx2), q) ==> q == zero
        &&& forall|q: T| #[trigger] call_ensures(self.div, (zero, c.dy2), q) ==> q == zero
        &&& forall|s: T| #[trigger] call_ensures(self.add, (zero, zero), s) ==> s == zero
        &&& forall|rate: T, p: T|
            #[trigger] call_ensures(self.mul, (c.diffusion, c.dt), rate) && #[trigger] call_ensures(
                self.mul,
                (rate, zero),
                p,
            ) ==> p == zero
        &&& forall|s: T| #[trigger] call_ensures(self.add, (value, zero), s) ==> s == value
    }

    /// What the arithmetic has to grant for the update to commute with
    /// `map`: sums and differences commute with it, and so do doubling,
    /// division by either squared spacing and multiplication by the rate.
    pub open spec fn scales(self, c: Coefficients<T>, map: spec_fn(T) -> T) -> bool {
        &&& forall|a: T, b: T, r: T| #[trigger]
            call_ensures(self.add, (a, b), r) ==> call_ensures(self.add, (map(a), map(b)), map(r))
        &&& forall|a: T, b: T, r: T| #[trigger]
            call_ensures(self.sub, (a, b), r) ==> call_ensures(self.sub, (map(a), map(b)), map(r))
        &&& forall|a: T, r: T| #[trigger]
            call_ensures(self.mul, (self.two, a), r) ==> call_ensures(
                self.mul,
                (self.two, map(a)),
                map(r),
            )
        &&& forall|a: T, r: T| #[trigger]
            call_ensures(self.div, (a, c.dx2), r) ==> call_ensures(self.div, (map(a), c.dx2), map(r))
        &&& forall|a: T, r: T| #[trigger]
            call_ensures(self.div, (a, c.dy2), r) ==> call_ensures(self.div, (map(a), c.dy2), map(r))
        &&& forall|rate: T, a: T, r: T|
            #[trigger] call_ensures(self.mul, (c.diffusion, c.dt), rate) && #[trigger] call_ensures(
                self.mul,
                (rate, a),
                r,
            ) ==> call_ensures(self.mul, (rate, map(a)), map(r))
    }

    /// The five-point update keeps every value that is steady under the
    /// arithmetic.
    pub proof fn lemma_steady_kept(self, c: Coefficients<T>, value: T, zero: T)
        requires
            self.steady(c, value, zero),
        ensures
            keeps(self.five_point_rule(c), value),
    {
        let rule = self.five_point_rule(c);
        assert forall|r: T| #[trigger] rule((value, value, value, value, value), r) implies r
            == value by {
            assert(self.five_point_is(c, value, value, value, value, value, r));
            let (along, across, both, rate, change) = choose|
                along: T,
                across: T,
                both: T,
                rate: T,
                change: T,
            |
                {
                    &&& #[trigger] self.second_difference_is(value, value, value, c.dx2, along)
                    &&& #[trigger] self.second_difference_is(value, value, value, c.dy2, across)
                    &&& #[trigger] call_ensures(self.add, (along, across), both)
                    &&& #[trigger] call_ensures(self.mul, (c.diffusion, c.dt), rate)
                    &&& #[trigger] call_ensures(self.mul, (rate, both), change)
                    &&& call_ensures(self.add, (value, change), r)
                };
            self.lemma_steady_difference(c, value, zero, c.dx2, along);
            self.lemma_steady_difference(c, value, zero, c.dy2, across);
        }
    }

    /// The second difference of three copies of a steady value, divided by
    /// either squared spacing, is the arithmetic's zero.
    pub proof fn lemma_steady_difference(
        self,
        c: Coefficients<T>,
        value: T,
        zero: T,
        spacing2: T,
        r: T,
    )
        requires
            self.steady(c, value, zero),
            spacing2 == c.dx2 || spacing2 == c.dy2,
            self.second_difference_is(value, value, value, spacing2, r),
        ensures
            r == zero,
    {
        let (twice, fall, bend) = choose|twice: T, fall: T, bend: T|
            {
                &&& #[trigger] call_ensures(self.mul, (self.two, value), twice)
                &&& #[trigger] call_ensures(self.sub, (value, twice), fall)
                &&& #[trigger] call_ensures(self.add, (fall, value), bend)
                &&& call_ensures(self.div, (bend, spacing2), r)
            };
        assert(bend == zero);
    }

    /// The second difference commutes with every map that the arithmetic
    /// scales with.
    pub proof fn lemma_difference_scales(
        self,
        c: Coefficients<T>,
        map: spec_fn(T) -> T,
        mid: T,
        before: T,
        after: T,
        spacing2: T,
        r: T,
    )
        requires
            self.scales(c, map),
            spacing2 == c.dx2 || spacing2 == c.dy2,
            self.second_difference_is(mid, before, after, spacing2, r),
        ensures
            self.second_difference_is(map(mid), map(before), map(after), spacing2, map(r)),
    {
        let (twice, fall, bend) = choose|twice: T, fall: T, bend: T|
            {
                &&& #[trigger] call_ensures(self.mul, (self.two, mid), twice)
                &&& #[trigger] call_ensures(self.sub, (after, twice), fall)
                &&& #[trigger] call_ensures(self.add, (fall, before), bend)
                &&& call_ensures(self.div, (bend, spacing2), r)
            };
        assert(call_ensures(self.mul, (self.two, map(mid)), map(twice)));
        assert(call_ensures(self.sub, (map(after), map(twice)), map(fall)));
        assert(call_ensures(self.add, (map(fall), map(before)), map(bend)));
        assert(call_ensures(self.div, (map(bend), spacing2), map(r)));
    }

    /// One-step linearity: the five-point update commutes with every map
    /// that the arithmetic scales with. Together with the commuting of a
    /// pass, evolving the mapped field gives the mapped result.
    pub proof fn lemma_update_scales(self, c: Coefficients<T>, map: spec_fn(T) -> T)
        requires
            self.scales(c, map),
        ensures
            commutes(self.five_point_rule(c), map),
    {
        let rule = self.five_point_rule(c);
        assert forall|n: (T, T, T, T, T), r: T| #[trigger] rule(n, r) implies rule(
            (map(n.0), map(n.1), map(n.2), map(n.3), map(n.4)),
            map(r),
        ) by {
            assert(self.five_point_is(c, n.0, n.1, n.2, n.3, n.4, r));
            let (along, across, both, rate, change) = choose|
                along: T,
                across: T,
                both: T,
                rate: T,
                change: T,
            |
                {
                    &&& #[trigger] self.second_difference_is(n.0, n.1, n.2, c.dx2, along)
                    &&& #[trigger] self.second_difference_is(n.0, n.3, n.4, c.dy2, across)
                    &&& #[trigger] call_ensures(self.add, (along, across), both)
                    &&& #[trigger] call_ensures(self.mul, (c.diffusion, c.dt), rate)
                    &&& #[trigger] call_ensures(self.mul, (rate, both), change)
                    &&& call_ensures(self.add, (n.0, change), r)
                };
            self.lemma_difference_scales(c, map, n.0, n.1, n.2, c.dx2, along);
            self.lemma_difference_scales(c, map, n.0, n.3, n.4, c.dy2, across);
            assert(call_ensures(self.add, (map(along), map(across)), map(both)));
            assert(call_ensures(self.mul, (rate, map(both)), map(change)));
            assert(call_ensures(self.add, (map(n.0), map(change)), map(r)));
            assert(self.five_point_is(
                c,
                map(n.0),
                map(n.1),
                map(n.2),
                map(n.3),
                map(n.4),
                map(r),
            ));
        }
    }
}

/// Uniform steady state of the heat update: a field that holds `value` in
/// every cell still does after any number of steps, whatever the diffusion
/// coefficient and the time step, as long as `value` is steady under the
/// arithmetic for every square of the spacings.
pub proof fn lemma_heat_uniform_kept<
    T,
    A: Fn(T, T) -> T,
    S: Fn(T, T) -> T,
    M: Fn(T, T) -> T,
    D: Fn(T, T) -> T,
    Z: Fn(T) -> bool,
>(
    ops: Arithmetic<T, A, S, M, D, Z>,
    dx: T,
    dy: T,
    diffusion: T,
    dt: T,
    start: Field<T>,
    end: Field<T>,
    passes: nat,
    value: T,
    zero: T,
)
    requires
        heat_evolves(ops, dx, dy, diffusion, dt, start, end, passes),
        uniform(start, value),
        forall|dx2: T, dy2: T|
            #[trigger] call_ensures(ops.mul, (dx, dx), dx2) && #[trigger] call_ensures(
                ops.mul,
                (dy, dy),
                dy2,
            ) ==> ops.steady(Coefficients { dx2, dy2, diffusion, dt }, value, zero),
    ensures
        end.same_shape(start),
        uniform(end, value),
        start.wf() ==> end == start,
{
    let (dx2, dy2) = choose|dx2: T, dy2: T|
        {
            &&& #[trigger] call_ensures(ops.mul, (dx, dx), dx2)
            &&& #[trigger] call_ensures(ops.mul, (dy, dy), dy2)
            &&& evolves(
                ops.five_point_rule(Coefficients { dx2, dy2, diffusion, dt }),
                start,
                end,
                passes,
            )
        };
    let c = Coefficients { dx2, dy2, diffusion, dt };
    ops.lemma_steady_kept(c, value, zero);
    lemma_uniform_kept(ops.five_point_rule(c), start, end, passes, value);
    if start.wf() {
        lemma_uniform_fixed(ops.five_point_rule(c), start, end, passes, value);
    }
}

/// Boundary invariance and zero-iteration identity of the heat update:
/// any number of steps keeps the shape and every boundary cell, and no
/// step at all keeps the whole field.
pub proof fn lemma_heat_boundary_kept<
    T,
    A: Fn(T, T) -> T,
    S: Fn(T, T) -> T,
    M: Fn(T, T) -> T,
    D: Fn(T, T) -> T,
    Z: Fn(T) -> bool,
>(
    ops: Arithmetic<T, A, S, M, D, Z>,
    dx: T,
    dy: T,
    diffusion: T,
    dt: T,
    start: Field<T>,
    end: Field<T>,
    passes: nat,
)
    requires
        heat_evolves(ops, dx, dy, diffusion, dt, start, end, passes),
    ensures
        end.same_shape(start),
        forall|i: int, j: int| start.boundary(i, j) ==> #[trigger] end.at(i, j) == start.at(i, j),
        passes == 0 ==> end == start,
{
    let (dx2, dy2) = choose|dx2: T, dy2: T|
        {
            &&& #[trigger] call_ensures(ops.mul, (dx, dx), dx2)
            &&& #[trigger] call_ensures(ops.mul, (dy, dy), dy2)
            &&& evolves(
                ops.five_point_rule(Coefficients { dx2, dy2, diffusion, dt }),
                start,
                end,
                passes,
            )
        };
    lemma_boundary_kept(
        ops.five_point_rule(Coefficients { dx2, dy2, diffusion, dt }),
        start,
        end,
        passes,
    );
}

/// Linearity of the heat update: where the arithmetic scales with `map`
/// for every square of the spacings, evolving the mapped field gives the
/// mapped result, for one step and for any number of steps.
pub proof fn lemma_heat_commutes<
    T,
    A: Fn(T, T) -> T,
    S: Fn(T, T) -> T,
    M: Fn(T, T) -> T,
    D: Fn(T, T) -> T,
    Z: Fn(T) -> bool,
>(
    ops: Arithmetic<T, A, S, M, D, Z>,
    map: spec_fn(T) -> T,
    dx: T,
    dy: T,
    diffusion: T,
    dt: T,
    start: Field<T>,
    end: Field<T>,
    passes: nat,
)
    requires
        start.wf(),
        heat_evolves(ops, dx, dy, diffusion, dt, start, end, passes),
        forall|dx2: T, dy2: T|
            #[trigger] call_ensures(ops.mul, (dx, dx), dx2) && #[trigger] call_ensures(
                ops.mul,
                (dy, dy),
                dy2,
            ) ==> ops.scales(Coefficients { dx2, dy2, diffusion, dt }, map),
    ensures
        heat_evolves(ops, dx, dy, diffusion, dt, mapped(start, map), mapped(end, map), passes),
{
    let (dx2, dy2) = choose|dx2: T, dy2: T|
        {
            &&& #[trigger] call_ensures(ops.mul, (dx, dx), dx2)
            &&& #[trigger] call_ensures(ops.mul, (dy, dy), dy2)
            &&& evolves(
                ops.five_point_rule(Coefficients { dx2, dy2, diffusion, dt }),
                start,
                end,
                passes,
            )
        };
    let c = Coefficients { dx2, dy2, diffusion, dt };
    ops.lemma_update_scales(c, map);
    lemma_evolution_commutes(ops.five_point_rule(c), map, start, end, passes);
}

} // verus!
