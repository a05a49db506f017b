//! The nearest-hit query over the surfaces of a world.
//!
//! A ray is a line of points, one for each value of its parameter. The
//! query is given, for each surface, the two parameters at which the ray
//! crosses it, and picks the nearest crossing inside a window. All that it
//! needs from a parameter is its place in the order of the parameters, so
//! it takes a parameter as a key of type `i64`: a smaller key is a nearer
//! point. The module [`crate::key`] makes such keys.

use vstd::prelude::*;

verus! {

/// The two parameters at which a ray crosses one surface, the smaller one
/// first.
#[derive(Clone, Copy, Debug, PartialEq, Eq, Structural)]
pub struct Roots {
    near: i64,
    far: i64,
}

/// One of the two crossings of a surface.
#[derive(Clone, Copy, Debug, PartialEq, Eq, Structural)]
pub enum Root {
    /// The crossing with the smaller parameter.
    Near,
    /// The crossing with the larger parameter.
    Far,
}

/// A crossing that a query accepted.
#[derive(Clone, Copy, Debug, PartialEq, Eq, Structural)]
pub struct Hit {
    /// The place of the surface in the list of the world.
    pub surface: usize,
    /// Which crossing of that surface it is.
    pub root: Root,
    /// The parameter of the crossing.
    pub t: i64,
}

/// `t` lies strictly inside the window from `t_min` to `t_max`.
pub open spec fn within(t: i64, t_min: i64, t_max: i64) -> bool {
    t_min < t && t < t_max
}

impl Roots {
    /// The smaller root is stored as the near one.
    #[verifier::type_invariant]
    pub closed spec fn ordered(self) -> bool {
        self.near <= self.far
    }

    /// The smaller of the two parameters.
    pub closed spec fn spec_near(&self) -> i64 {
        self.near
    }

    /// The larger of the two parameters.
    pub closed spec fn spec_far(&self) -> i64 {
        self.far
    }

    /// The roots `a` and `b`, in either order.
    pub fn new(a: i64, b: i64) -> (roots: Roots)
        ensures
            roots.ordered(),
            roots.near() == if a <= b { a } else { b },
            roots.far() == if a <= b { b } else { a },
    {
        if a <= b {
            Roots { near: a, far: b }
        } else {
            Roots { near: b, far: a }
        }
    }

    /// The smaller of the two parameters.
    #[verifier::when_used_as_spec(spec_near)]
    pub fn near(&self) -> (t: i64)
        ensures
            t == self.near(),
    {
        self.near
    }

    /// The larger of the two parameters.
    #[verifier::when_used_as_spec(spec_far)]
    pub fn far(&self) -> (t: i64)
        ensures
            t == self.far(),
    {
        self.far
    }

    /// The parameter of the crossing `root`.
    pub open spec fn spec_at(&self, root: Root) -> i64 {
        match root {
            Root::Near => self.near(),
            Root::Far => self.far(),
        }
    }

    /// The parameter of the crossing `root`.
    #[verifier::when_used_as_spec(spec_at)]
    pub fn at(&self, root: Root) -> (t: i64)
        ensures
            t == self.at(root),
    {
        match root {
            Root::Near => self.near,
            Root::Far => self.far,
        }
    }

    /// The crossing that a surface reports for a window: the near root if it
    /// lies inside, else the far root if that one does, else none.
    pub open spec fn spec_first_within(&self, t_min: i64, t_max: i64) -> Option<Root> {
        if within(self.near(), t_min, t_max) {
            Some(Root::Near)
        } else if within(self.far(), t_min, t_max) {
            Some(Root::Far)
        } else {
            None
        }
    }

    /// Tries the near root, then the far one, and accepts the first that
    /// lies strictly inside the window.
    #[verifier::when_used_as_spec(spec_first_within)]
    pub fn first_within(&self, t_min: i64, t_max: i64) -> (root: Option<Root>)
        ensures
            root == self.first_within(t_min, t_max),
    {
        if t_min < self.near && self.near < t_max {
            Some(Root::Near)
        } else if t_min < self.far && self.far < t_max {
            Some(Root::Far)
        } else {
            None
        }
    }
}

/// What one surface reports for a window: its accepted crossing and the
/// parameter of it. A surface that the ray does not cross reports nothing.
pub open spec fn reported(crossing: Option<Roots>, t_min: i64, t_max: i64) -> Option<(Root, i64)> {
    match crossing {
        Some(roots) => match roots.first_within(t_min, t_max) {
            Some(root) => Some((root, roots.at(root))),
            None => None,
        },
        None => None,
    }
}

/// No surface reports a crossing for the window.
pub open spec fn misses_all(crossings: Seq<Option<Roots>>, t_min: i64, t_max: i64) -> bool {
    forall|i: int|
        0 <= i < crossings.len() ==> reported(#[trigger] crossings[i], t_min, t_max) is None
}

/// `hit` is the nearest crossing that any surface reports for the window,
/// and of the surfaces that report that parameter its surface stands first
/// in the list.
pub open spec fn is_nearest(
    crossings: Seq<Option<Roots>>,
    t_min: i64,
    t_max: i64,
    hit: Hit,
) -> bool {
    &&& hit.surface < crossings.len()
    &&& reported(crossings[hit.surface as int], t_min, t_max) == Some((hit.root, hit.t))
    &&& forall|i: int|
        0 <= i < crossings.len() && reported(#[trigger] crossings[i], t_min, t_max) is Some
            ==> hit.t <= reported(crossings[i], t_min, t_max)->Some_0.1
    &&& forall|i: int|
        0 <= i < hit.surface && reported(#[trigger] crossings[i], t_min, t_max) is Some ==> hit.t
            < reported(crossings[i], t_min, t_max)->Some_0.1
}

/// The nearest crossing inside the window over all the surfaces of a world,
/// given for each surface, in list order, the roots of the ray on it (or
/// `None` where the ray misses the surface).
///
/// The surfaces are scanned in list order. Each is asked for a crossing
/// between `t_min` and the nearest parameter accepted so far, so that a
/// later surface replaces an earlier one only where it is strictly nearer.
pub fn nearest_hit(crossings: &Vec<Option<Roots>>, t_min: i64, t_max: i64) -> (nearest: Option<Hit>)
    ensures
        match nearest {
            Some(hit) => is_nearest(crossings@, t_min, t_max, hit),
            None => misses_all(crossings@, t_min, t_max),
        },
{
    let mut closest_so_far = t_max;
    let mut nearest: Option<Hit> = None;
    let mut i: usize = 0;
    while i < crossings.len()
        invariant
            i <= crossings.len(),
            closest_so_far <= t_max,
            match nearest {
                Some(hit) => is_nearest(crossings@.take(i as int), t_min, t_max, hit)
                    && closest_so_far == hit.t,
                None => misses_all(crossings@.take(i as int), t_min, t_max) && closest_so_far
                    == t_max,
            },
        decreases crossings.len() - i,
    {
        let ghost before = crossings@.take(i as int);
        let ghost after = crossings@.take(i + 1);
        proof {
            // The list scanned so far grows by the surface at `i`.
            assert(after[i as int] == crossings@[i as int]);
            assert(forall|j: int| 0 <= j < i ==> after[j] == before[j]);
        }
        match &crossings[i] {
            Some(roots) => {
                proof {
                    use_type_invariant(roots);
                }
                match roots.first_within(t_min, closest_so_far) {
                    Some(root) => {
                        let t = roots.at(root);
                        closest_so_far = t;
                        nearest = Some(Hit { surface: i, root, t });
                    },
                    None => {},
                }
            },
            None => {},
        }
        i = i + 1;
    }
    proof {
        assert(crossings@.take(crossings.len() as int) =~= crossings@);
    }
    nearest
}

/// A surface whose near crossing lies inside the window is hit there: a ray
/// that starts outside a surface and is aimed at it meets the near side.
pub proof fn law_surface_ahead_is_hit_at_its_near_root(
    roots: Roots,
    t_min: i64,
    t_max: i64,
    hit: Hit,
)
    requires
        within(roots.near(), t_min, t_max),
        is_nearest(seq![Some(roots)], t_min, t_max, hit),
    ensures
        hit == (Hit { surface: 0, root: Root::Near, t: roots.near() }),
{
    assert(seq![Some(roots)][0] == Some(roots));
}

/// A surface that the ray starts inside of is hit where the ray leaves it:
/// the near crossing lies at or before the start of the window, the far one
/// inside.
pub proof fn law_surface_around_is_hit_at_its_far_root(
    roots: Roots,
    t_min: i64,
    t_max: i64,
    hit: Hit,
)
    requires
        roots.near() <= t_min,
        within(roots.far(), t_min, t_max),
        is_nearest(seq![Some(roots)], t_min, t_max, hit),
    ensures
        hit == (Hit { surface: 0, root: Root::Far, t: roots.far() }),
{
    assert(seq![Some(roots)][0] == Some(roots));
}

/// A query has one answer: no two hits are both the nearest of a list.
pub proof fn law_nearest_is_unique(
    crossings: Seq<Option<Roots>>,
    t_min: i64,
    t_max: i64,
    hit: Hit,
    other: Hit,
)
    requires
        is_nearest(crossings, t_min, t_max, hit),
        is_nearest(crossings, t_min, t_max, other),
    ensures
        hit == other,
{
    if hit.surface < other.surface {
        assert(reported(crossings[hit.surface as int], t_min, t_max) is Some);
    } else if other.surface < hit.surface {
        assert(reported(crossings[other.surface as int], t_min, t_max) is Some);
    }
}

/// A hit and a miss exclude each other, and a list of crossings misses
/// exactly where no root of any surface lies inside the window.
pub proof fn law_hit_or_miss(crossings: Seq<Option<Roots>>, t_min: i64, t_max: i64, hit: Hit)
    ensures
        !(is_nearest(crossings, t_min, t_max, hit) && misses_all(crossings, t_min, t_max)),
        misses_all(crossings, t_min, t_max) <==> forall|i: int|
            0 <= i < crossings.len() && (#[trigger] crossings[i]) is Some ==> !within(
                crossings[i]->Some_0.near(),
                t_min,
                t_max,
            ) && !within(crossings[i]->Some_0.far(), t_min, t_max),
{
    if is_nearest(crossings, t_min, t_max, hit) {
        assert(reported(crossings[hit.surface as int], t_min, t_max) is Some);
    }
    assert forall|i: int| 0 <= i < crossings.len() implies (reported(
        #[trigger] crossings[i],
        t_min,
        t_max,
    ) is None <==> (crossings[i] is Some ==> !within(crossings[i]->Some_0.near(), t_min, t_max)
        && !within(crossings[i]->Some_0.far(), t_min, t_max))) by {}
}

/// The parameter of the nearest hit does not depend on the order of the
/// surfaces: two lists that hold the same surfaces, in any order, miss
/// together or hit at the same parameter.
pub proof fn law_nearest_ignores_order(
    crossings: Seq<Option<Roots>>,
    reordered: Seq<Option<Roots>>,
    t_min: i64,
    t_max: i64,
    hit: Hit,
    other: Hit,
)
    requires
        crossings.to_multiset() == reordered.to_multiset(),
    ensures
        misses_all(crossings, t_min, t_max) <==> misses_all(reordered, t_min, t_max),
        is_nearest(crossings, t_min, t_max, hit) && is_nearest(reordered, t_min, t_max, other)
            ==> hit.t == other.t,
{
    crossings.to_multiset_ensures();
    reordered.to_multiset_ensures();
    assert forall|i: int| 0 <= i < crossings.len() implies reordered.contains(
        #[trigger] crossings[i],
    ) by {
        assert(crossings.contains(crossings[i]));
        assert(reordered.to_multiset().count(crossings[i]) > 0);
    }
    assert forall|i: int| 0 <= i < reordered.len() implies crossings.contains(
        #[trigger] reordered[i],
    ) by {
        assert(reordered.contains(reordered[i]));
        assert(crossings.to_multiset().count(reordered[i]) > 0);
    }
    if is_nearest(crossings, t_min, t_max, hit) && is_nearest(reordered, t_min, t_max, other) {
        let j = reordered.index_of(crossings[hit.surface as int]);
        assert(reordered[j] == crossings[hit.surface as int]);
        let i = crossings.index_of(reordered[other.surface as int]);
        assert(crossings[i] == reordered[other.surface as int]);
    }
    if misses_all(crossings, t_min, t_max) {
        assert forall|j: int| 0 <= j < reordered.len() implies reported(
            #[trigger] reordered[j],
            t_min,
            t_max,
        ) is None by {
            let i = crossings.index_of(reordered[j]);
            assert(crossings[i] == reordered[j]);
        }
    }
    if misses_all(reordered, t_min, t_max) {
        assert forall|i: int| 0 <= i < crossings.len() implies reported(
            #[trigger] crossings[i],
            t_min,
            t_max,
        ) is None by {
            let j = reordered.index_of(crossings[i]);
            assert(reordered[j] == crossings[i]);
        }
    }
}

/// Of two surfaces that both report a crossing, the one with the smaller
/// parameter is hit, whichever of the two stands first in the list.
pub proof fn law_nearer_of_two_is_hit(
    nearer: Option<Roots>,
    farther: Option<Roots>,
    t_min: i64,
    t_max: i64,
    hit: Hit,
    swapped: Hit,
)
    requires
        reported(nearer, t_min, t_max) is Some,
        reported(farther, t_min, t_max) is Some,
        reported(nearer, t_min, t_max)->Some_0.1 < reported(farther, t_min, t_max)->Some_0.1,
        is_nearest(seq![nearer, farther], t_min, t_max, hit),
        is_nearest(seq![farther, nearer], t_min, t_max, swapped),
    ensures
        hit.surface == 0,
        swapped.surface == 1,
        (hit.root, hit.t) == reported(nearer, t_min, t_max)->Some_0,
        (swapped.root, swapped.t) == reported(nearer, t_min, t_max)->Some_0,
{
    let ab = seq![nearer, farther];
    let ba = seq![farther, nearer];
    assert(ab[0] == nearer && ab[1] == farther);
    assert(ba[0] == farther && ba[1] == nearer);
}

} // verus!
