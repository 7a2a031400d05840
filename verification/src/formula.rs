use vstd::prelude::*;

verus! {

/// The arithmetic of a scalar type: its number two, its four operations and
/// its test for zero. The engine computes with cells only through these, so
/// a simulation has the precision of the operations handed in.
pub struct Arithmetic<T, A, S, M, D, Z> {
    pub two: T,
    pub add: A,
    pub sub: S,
    pub mul: M,
    pub div: D,
    pub is_zero: Z,
}

/// The constants of a simulation: the squared grid spacings, the diffusion
/// coefficient and the time step.
pub struct Coefficients<T> {
    pub dx2: T,
    pub dy2: T,
    pub diffusion: T,
    pub dt: T,
}

impl<
    T,
    A: Fn(T, T) -> T,
    S: Fn(T, T) -> T,
    M: Fn(T, T) -> T,
    D: Fn(T, T) -> T,
    Z: Fn(T) -> bool,
> Arithmetic<T, A, S, M, D, Z> {
    /// Each operation may be applied to any values.
    pub open spec fn total(self) -> bool {
        &&& forall|a: T, b: T| call_requires(self.add, (a, b))
        &&& forall|a: T, b: T| call_requires(self.sub, (a, b))
        &&& forall|a: T, b: T| call_requires(self.mul, (a, b))
        &&& forall|a: T, b: T| call_requires(self.div, (a, b))
        &&& forall|a: T| call_requires(self.is_zero, (a,))
    }

    /// The five-point update with the given constants as an update rule.
    pub open spec fn five_point_rule(self, c: Coefficients<T>) -> spec_fn((T, T, T, T, T), T) -> bool {
        |n: (T, T, T, T, T), r: T| self.five_point_is(c, n.0, n.1, n.2, n.3, n.4, r)
    }

    /// `r` is a value of `(after - two * mid + before) / spacing2`,
    /// grouped from left to right.
    pub open spec fn second_difference_is(
        self,
        mid: T,
        before: T,
        after: T,
        spacing2: T,
        r: T,
    ) -> bool {
        exists|twice: T, fall: T, bend: T|
            {
                &&& #[trigger] call_ensures(self.mul, (self.two, mid), twice)
                &&& #[trigger] call_ensures(self.sub, (after, twice), fall)
                &&& #[trigger] call_ensures(self.add, (fall, before), bend)
                &&& call_ensures(self.div, (bend, spacing2), r)
            }
    }

    /// `r` is a value of the five-point update
    /// `mid + diffusion * dt * ((right - two * mid + left) / dx2 + (down - two * mid + up) / dy2)`
    /// of a cell and its four neighbours, grouped as written.
    pub open spec fn five_point_is(
        self,
        c: Coefficients<T>,
        mid: T,
        left: T,
        right: T,
        up: T,
        down: T,
        r: T,
    ) -> bool {
        exists|along: T, across: T, both: T, rate: T, change: T|
            {
                &&& #[trigger] self.second_difference_is(mid, left, right, c.dx2, along)
                &&& #[trigger] self.second_difference_is(mid, up, down, c.dy2, across)
                &&& #[trigger] call_ensures(self.add, (along, across), both)
                &&& #[trigger] call_ensures(self.mul, (c.diffusion, c.dt), rate)
                &&& #[trigger] call_ensures(self.mul, (rate, both), change)
                &&& call_ensures(self.add, (mid, change), r)
            }
    }
}

impl<
    T: Copy,
    A: Fn(T, T) -> T,
    S: Fn(T, T) -> T,
    M: Fn(T, T) -> T,
    D: Fn(T, T) -> T,
    Z: Fn(T) -> bool,
> Arithmetic<T, A, S, M, D, Z> {
    /// The second difference along one axis, divided by the squared spacing
    /// of that axis.
    pub fn second_difference(&self, mid: T, before: T, after: T, spacing2: T) -> (r: T)
        requires
            self.total(),
        ensures
            self.second_difference_is(mid, before, after, spacing2, r),
    {
        let twice = (self.mul)(self.two, mid);
        let fall = (self.sub)(after, twice);
        let bend = (self.add)(fall, before);
        (self.div)(bend, spacing2)
    }

    /// The new value of a cell from its own value and those of its left,
    /// right, upper and lower neighbour.
    pub fn five_point(&self, c: &Coefficients<T>, mid: T, left: T, right: T, up: T, down: T) -> (r:
        T)
        requires
            self.total(),
        ensures
            self.five_point_is(*c, mid, left, right, up, down, r),
    {
        let along = self.second_difference(mid, left, right, c.dx2);
        let across = self.second_difference(mid, up, down, c.dy2);
        let both = (self.add)(along, across);
        let rate = (self.mul)(c.diffusion, c.dt);
        let change = (self.mul)(rate, both);
        (self.add)(mid, change)
    }
}

} // verus!
