use vstd::prelude::*;
use crate::grid::{Field, Grid};

verus! {

/// The five values that the update of cell `(i, j)` reads: the cell itself,
/// then its left, right, upper and lower neighbour.
pub open spec fn neighbourhood<T>(field: Field<T>, i: int, j: int) -> (T, T, T, T, T) {
    (field.at(i, j), field.at(i, j - 1), field.at(i, j + 1), field.at(i - 1, j), field.at(i + 1, j))
}

/// The rule may be applied to any five values.
pub open spec fn total<T, F: Fn(T, T, T, T, T) -> T>(rule: F) -> bool {
    forall|m: T, l: T, r: T, u: T, d: T| call_requires(rule, (m, l, r, u, d))
}

/// The update rule that an executable rule stands for: the relation between
/// a neighbourhood and the values that the rule may return for it.
pub open spec fn rule_of<T, F: Fn(T, T, T, T, T) -> T>(rule: F) -> spec_fn((T, T, T, T, T), T) -> bool {
    |n: (T, T, T, T, T), r: T| call_ensures(rule, n, r)
}

/// `next` is what one pass of `rule` over `prev` may give: a well-formed
/// field of the same shape whose boundary cells are those of `prev` and
/// whose interior cells are values of the rule for the neighbourhoods in
/// `prev`.
pub open spec fn advances<T>(
    rule: spec_fn((T, T, T, T, T), T) -> bool,
    prev: Field<T>,
    next: Field<T>,
) -> bool {
    &&& next.wf()
    &&& next.same_shape(prev)
    &&& forall|i: int, j: int| #![trigger next.at(i, j)]
        prev.has(i, j) ==> if prev.interior(i, j) {
            rule(neighbourhood(prev, i, j), next.at(i, j))
        } else {
            next.at(i, j) == prev.at(i, j)
        }
}

/// The new value of the interior cell `(i, j)`.
pub fn updated_cell<T: Copy, F: Fn(T, T, T, T, T) -> T>(
    source: &Grid<T>,
    i: usize,
    j: usize,
    rule: &F,
) -> (r: T)
    requires
        source@.wf(),
        source@.interior(i as int, j as int),
        total(*rule),
    ensures
        rule_of(*rule)(neighbourhood(source@, i as int, j as int), r),
{
    proof {
        source.lemma_extents_fit();
    }
    let mid = *source.get(i, j);
    let left = *source.get(i, j - 1);
    let right = *source.get(i, j + 1);
    let up = *source.get(i - 1, j);
    let down = *source.get(i + 1, j);
    rule(mid, left, right, up, down)
}

/// One pass of the stencil: every interior cell of `target` becomes the
/// rule's result on the cell's neighbourhood in `source`. Nothing is read
/// from `target`, and its boundary cells are not written.
pub fn pass<T: Copy, F: Fn(T, T, T, T, T) -> T>(source: &Grid<T>, target: &mut Grid<T>, rule: &F)
    requires
        source@.wf(),
        old(target)@.wf(),
        old(target)@.same_shape(source@),
        forall|i: int, j: int|
            source@.boundary(i, j) ==> #[trigger] old(target)@.at(i, j) == source@.at(i, j),
        total(*rule),
    ensures
        advances(rule_of(*rule), source@, final(target)@),
        forall|i: int, j: int|
            source@.boundary(i, j) ==> #[trigger] final(target)@.at(i, j) == old(target)@.at(i, j),
{
    let rows: usize = source.rows();
    let cols: usize = source.cols();
    if rows < 3 || cols < 3 {
        return ;
    }
    let ghost before = target@;
    let mut i: usize = 1;
    while i < rows - 1
        invariant
            rows == source@.rows,
            cols == source@.cols,
            rows >= 3,
            cols >= 3,
            1 <= i <= rows - 1,
            source@.wf(),
            target@.wf(),
            target@.same_shape(source@),
            total(*rule),
            forall|a: int, b: int| #![trigger target@.at(a, b)]
                source@.has(a, b) ==> if source@.interior(a, b) {
                    a < i ==> call_ensures(*rule, neighbourhood(source@, a, b), target@.at(a, b))
                } else {
                    target@.at(a, b) == source@.at(a, b) && target@.at(a, b) == before.at(a, b)
                },
        decreases rows - i,
    {
        let mut j: usize = 1;
        while j < cols - 1
            invariant
                rows == source@.rows,
                cols == source@.cols,
                rows >= 3,
                cols >= 3,
                1 <= i < rows - 1,
                1 <= j <= cols - 1,
                source@.wf(),
                target@.wf(),
                target@.same_shape(source@),
                total(*rule),
                forall|a: int, b: int| #![trigger target@.at(a, b)]
                    source@.has(a, b) ==> if source@.interior(a, b) {
                        a < i || (a == i && b < j) ==> call_ensures(
                            *rule,
                            neighbourhood(source@, a, b),
                            target@.at(a, b),
                        )
                    } else {
                        target@.at(a, b) == source@.at(a, b) && target@.at(a, b) == before.at(a, b)
                    },
            decreases cols - j,
        {
            let value = updated_cell(source, i, j, rule);
            target.set(i, j, value);
            j += 1;
        }
        i += 1;
    }
}

} // verus!
