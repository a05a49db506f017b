//! The radiance integrator: one light path, followed bounce by bounce
//! until it leaves the scene, is absorbed, or has used up its depth budget.

use crate::hit::{
    is_nearest, law_hit_or_miss, law_nearest_is_unique, misses_all, nearest_hit, Hit, Roots,
};
use crate::key::{is_key, key, pattern, INFINITY};
use crate::renderer::Renderer;
use vstd::prelude::*;

verus! {

/// The start of the window in which a ray looks for a hit: the key of one
/// thousandth in single precision. A crossing nearer than that is taken for
/// the surface that the ray has just left.
pub const T_MIN: i64 = 0x3a83_126f;

/// The end of the window in which a ray looks for a hit: the key of
/// infinity. Every crossing at a finite parameter lies before it.
pub const T_MAX: i64 = 0x7f80_0000;

/// What tracing one ray found.
#[derive(Clone, Copy, Debug, PartialEq, Eq)]
pub enum Bounce<R, C> {
    /// The ray hit no surface. It carries the background radiance of its
    /// direction.
    Miss { background: C },
    /// A surface was hit and its material absorbed the ray.
    Absorbed,
    /// A surface was hit and its material scattered the ray.
    Scattered { ray: R, attenuation: C },
}

/// The window is made of keys, and a hit inside it lies at a parameter
/// that is a number, positive and finite.
pub proof fn law_hit_is_at_a_finite_parameter(crossings: Seq<Option<Roots>>, hit: Hit)
    requires
        is_nearest(crossings, T_MIN, T_MAX, hit),
    ensures
        is_key(T_MIN),
        T_MAX == key(INFINITY),
        pattern(hit.t) is Some,
        0 < pattern(hit.t)->Some_0 < INFINITY,
        key(pattern(hit.t)->Some_0) == hit.t,
{
}

impl<
    R,
    C: Copy,
    GetRay: Fn(u32, u32, u64) -> R,
    Crossings: Fn(&R) -> Vec<Option<Roots>>,
    Scatter: Fn(R, Hit) -> Option<(R, C)>,
    Background: Fn(R) -> C,
    Tint: Fn(C, C) -> C,
    Plus: Fn(C, C) -> C,
> Renderer<C, GetRay, Crossings, Scatter, Background, Tint, Plus> {
    /// `bounce` is what tracing `ray` finds: the nearest hit inside the
    /// window from [`T_MIN`] to [`T_MAX`] is looked for among the crossings
    /// of the ray; where there is none the ray misses and carries its
    /// background, else the material at the hit scatters or absorbs it.
    pub open spec fn is_bounce(&self, ray: R, bounce: Bounce<R, C>) -> bool {
        exists|found: Vec<Option<Roots>>| #[trigger]
            call_ensures(self.crossings, (&ray,), found) && match bounce {
                Bounce::Miss { background } => misses_all(found@, T_MIN, T_MAX) && call_ensures(
                    self.background,
                    (ray,),
                    background,
                ),
                Bounce::Absorbed => exists|hit: Hit| #[trigger]
                    is_nearest(found@, T_MIN, T_MAX, hit) && call_ensures(
                        self.scatter,
                        (ray, hit),
                        None::<(R, C)>,
                    ),
                Bounce::Scattered { ray: next, attenuation } => exists|hit: Hit| #[trigger]
                    is_nearest(found@, T_MIN, T_MAX, hit) && call_ensures(
                        self.scatter,
                        (ray, hit),
                        Some((next, attenuation)),
                    ),
            }
    }

    /// Traces one ray: asks for its crossings with the surfaces, takes the
    /// nearest inside the window from [`T_MIN`] to [`T_MAX`], and lets the
    /// material there scatter the ray; a ray that hits nothing is given its
    /// background.
    pub fn trace(&self, ray: R) -> (bounce: Bounce<R, C>)
        requires
            self.callable(),
        ensures
            self.is_bounce(ray, bounce),
    {
        let found = (self.crossings)(&ray);
        match nearest_hit(&found, T_MIN, T_MAX) {
            None => {
                let background = (self.background)(ray);
                Bounce::Miss { background }
            },
            Some(hit) => match (self.scatter)(ray, hit) {
                None => Bounce::Absorbed,
                Some((next, attenuation)) => Bounce::Scattered { ray: next, attenuation },
            },
        }
    }

    /// `out` is `factor` under the attenuation carried so far: `factor`
    /// itself at the start of a path, the product of the two after a
    /// scatter.
    pub open spec fn is_tinted(&self, carried: Option<C>, factor: C, out: C) -> bool {
        match carried {
            None => out == factor,
            Some(product) => call_ensures(self.tint, (product, factor), out),
        }
    }

    /// The path ends at `ray` with `color`: the ray misses every surface
    /// and `color` is its background under the carried attenuation, or the
    /// ray is absorbed and `color` is black.
    pub open spec fn ends_with(&self, carried: Option<C>, ray: R, color: C) -> bool {
        exists|bounce: Bounce<R, C>| #[trigger]
            self.is_bounce(ray, bounce) && match bounce {
                Bounce::Miss { background } => self.is_tinted(carried, background, color),
                Bounce::Absorbed => color == self.black,
                Bounce::Scattered { .. } => false,
            }
    }

    /// The path goes on from `ray`: a material scatters it into `next`, and
    /// `product` is the attenuation of the material under the carried one.
    pub open spec fn scatters_into(&self, carried: Option<C>, ray: R, next: R, product: C) -> bool {
        exists|attenuation: C| #[trigger]
            self.is_bounce(ray, Bounce::Scattered { ray: next, attenuation }) && self.is_tinted(
                carried,
                attenuation,
                product,
            )
    }

    /// `color` is a radiance of the path that goes on with `ray`, has
    /// `depth` bounces left and carries the attenuation `carried`.
    ///
    /// A path without budget is black. Otherwise the ray is traced. A miss
    /// gives the background under the carried attenuation, an absorbed ray
    /// gives black, and a scattered ray goes on with one bounce less and
    /// the attenuation of the material multiplied in.
    pub open spec fn is_radiance(&self, carried: Option<C>, ray: R, depth: int, color: C) -> bool
        decreases depth,
    {
        if depth <= 0 {
            color == self.black
        } else {
            ||| self.ends_with(carried, ray, color)
            ||| exists|next: R, product: C| #[trigger]
                self.scatters_into(carried, ray, next, product) && self.is_radiance(
                    Some(product),
                    next,
                    depth - 1,
                    color,
                )
        }
    }

    /// The radiance that arrives along `ray`, estimated by one light path
    /// of at most `depth` bounces.
    ///
    /// The path is followed in a loop that carries the product of the
    /// attenuations met so far, so the stack does not grow with `depth`.
    pub fn ray_color(&self, ray: R, depth: i32) -> (color: C)
        requires
            self.callable(),
        ensures
            self.is_radiance(None, ray, depth as int, color),
    {
        let mut current = ray;
        let mut depth_left = depth;
        let mut carried: Option<C> = None;
        loop
            invariant
                self.callable(),
                forall|c: C|
                    self.is_radiance(carried, current, depth_left as int, c) ==> self.is_radiance(
                        None,
                        ray,
                        depth as int,
                        c,
                    ),
            decreases depth_left,
        {
            if depth_left <= 0 {
                return self.black;
            }
            let ghost traced = current;
            match self.trace(current) {
                Bounce::Miss { background } => {
                    let color = match carried {
                        None => background,
                        Some(product) => (self.tint)(product, background),
                    };
                    proof {
                        assert(self.ends_with(carried, traced, color));
                    }
                    return color;
                },
                Bounce::Absorbed => {
                    proof {
                        assert(self.ends_with(carried, traced, self.black));
                    }
                    return self.black;
                },
                Bounce::Scattered { ray: next, attenuation } => {
                    let product = match carried {
                        None => attenuation,
                        Some(product) => (self.tint)(product, attenuation),
                    };
                    proof {
                        assert(self.scatters_into(carried, traced, next, product));
                    }
                    carried = Some(product);
                    current = next;
                    depth_left = depth_left - 1;
                },
            }
        }
    }

    /// Where the functions have one outcome each, tracing a ray has one
    /// outcome.
    pub proof fn law_bounce_is_unique(&self, ray: R, bounce: Bounce<R, C>, other: Bounce<R, C>)
        requires
            self.one_way(),
            self.is_bounce(ray, bounce),
            self.is_bounce(ray, other),
        ensures
            bounce == other,
    {
        assert forall|found: Vec<Option<Roots>>, hit: Hit, other_hit: Hit|
            is_nearest(found@, T_MIN, T_MAX, hit) && is_nearest(
                found@,
                T_MIN,
                T_MAX,
                other_hit,
            ) implies hit == other_hit by {
            law_nearest_is_unique(found@, T_MIN, T_MAX, hit, other_hit);
        }
        assert forall|found: Vec<Option<Roots>>, hit: Hit|
            misses_all(found@, T_MIN, T_MAX) implies !is_nearest(found@, T_MIN, T_MAX, hit) by {
            law_hit_or_miss(found@, T_MIN, T_MAX, hit);
        }
    }

    /// Where the functions have one outcome each, a path has one radiance.
    pub proof fn law_radiance_is_unique(
        &self,
        carried: Option<C>,
        ray: R,
        depth: int,
        color: C,
        other: C,
    )
        requires
            self.one_way(),
            self.is_radiance(carried, ray, depth, color),
            self.is_radiance(carried, ray, depth, other),
        ensures
            color == other,
        decreases depth,
    {
        if depth > 0 {
            assert forall|bounce: Bounce<R, C>, other_bounce: Bounce<R, C>|
                self.is_bounce(ray, bounce) && self.is_bounce(ray, other_bounce) implies bounce
                == other_bounce by {
                self.law_bounce_is_unique(ray, bounce, other_bounce);
            }
            let ends = self.ends_with(carried, ray, color);
            let other_ends = self.ends_with(carried, ray, other);
            if ends && other_ends {
            } else if !ends && !other_ends {
                let (next, product) = choose|next: R, product: C| #[trigger]
                    self.scatters_into(carried, ray, next, product) && self.is_radiance(
                        Some(product),
                        next,
                        depth - 1,
                        color,
                    );
                let (other_next, other_product) = choose|next: R, product: C| #[trigger]
                    self.scatters_into(carried, ray, next, product) && self.is_radiance(
                        Some(product),
                        next,
                        depth - 1,
                        other,
                    );
                assert(next == other_next && product == other_product);
                self.law_radiance_is_unique(Some(product), next, depth - 1, color, other);
            } else {
                // One path would end at the ray where the other is scattered.
                let scattered = if ends { other } else { color };
                let (next, product) = choose|next: R, product: C| #[trigger]
                    self.scatters_into(carried, ray, next, product) && self.is_radiance(
                        Some(product),
                        next,
                        depth - 1,
                        scattered,
                    );
                assert(false);
            }
        }
    }

    /// A path without budget contributes nothing: its only radiance is
    /// black.
    pub proof fn law_spent_budget_is_black(
        &self,
        carried: Option<C>,
        ray: R,
        depth: int,
        color: C,
    )
        requires
            depth <= 0,
        ensures
            self.is_radiance(carried, ray, depth, color) <==> color == self.black,
    {
    }

    /// A ray that crosses no surface inside the window is given exactly its
    /// background: where every list of crossings of `ray` misses and the
    /// background of `ray` is `sky`, a path that starts with `ray` and has
    /// budget has no radiance but `sky`.
    pub proof fn law_no_crossing_is_background(&self, ray: R, depth: int, sky: C, color: C)
        requires
            depth > 0,
            forall|found: Vec<Option<Roots>>| #[trigger]
                call_ensures(self.crossings, (&ray,), found) ==> misses_all(found@, T_MIN, T_MAX),
            forall|c: C| #[trigger] call_ensures(self.background, (ray,), c) ==> c == sky,
            self.is_radiance(None, ray, depth, color),
        ensures
            color == sky,
    {
        assert forall|bounce: Bounce<R, C>| #[trigger] self.is_bounce(ray, bounce) implies bounce
            == (Bounce::<R, C>::Miss { background: sky }) by {
            assert forall|found: Vec<Option<Roots>>, hit: Hit|
                misses_all(found@, T_MIN, T_MAX) implies !#[trigger] is_nearest(
                found@,
                T_MIN,
                T_MAX,
                hit,
            ) by {
                law_hit_or_miss(found@, T_MIN, T_MAX, hit);
            }
        }
    }

    /// A ray that a material absorbs contributes nothing: where every list
    /// of crossings of `ray` has a hit and the material there can only
    /// absorb the ray, the only radiance of the path is black.
    pub proof fn law_absorbed_is_black(&self, carried: Option<C>, ray: R, depth: int, color: C)
        requires
            forall|found: Vec<Option<Roots>>| #[trigger]
                call_ensures(self.crossings, (&ray,), found) ==> !misses_all(found@, T_MIN, T_MAX),
            forall|hit: Hit, out: Option<(R, C)>| #[trigger]
                call_ensures(self.scatter, (ray, hit), out) ==> out is None,
            self.is_radiance(carried, ray, depth, color),
        ensures
            color == self.black,
    {
    }

    /// An attenuation of white multiplies through unchanged: where every
    /// material scatters with the attenuation `white`, and `white` times a
    /// colour is that colour, the radiance of a path is black, or it is the
    /// background of a ray that missed, just as that ray carried it.
    pub proof fn law_white_surfaces_pass_the_background_on(
        &self,
        white: C,
        carried: Option<C>,
        ray: R,
        depth: int,
        color: C,
    )
        requires
            forall|r: R, hit: Hit, next: R, attenuation: C| #[trigger]
                call_ensures(self.scatter, (r, hit), Some((next, attenuation))) ==> attenuation
                    == white,
            forall|factor: C, out: C| #[trigger]
                call_ensures(self.tint, (white, factor), out) ==> out == factor,
            carried matches Some(product) ==> product == white,
            self.is_radiance(carried, ray, depth, color),
        ensures
            color == self.black || exists|last: R| #[trigger]
                self.is_bounce(last, Bounce::Miss { background: color }),
        decreases depth,
    {
        if depth > 0 && !self.ends_with(carried, ray, color) {
            let (next, product) = choose|next: R, product: C| #[trigger]
                self.scatters_into(carried, ray, next, product) && self.is_radiance(
                    Some(product),
                    next,
                    depth - 1,
                    color,
                );
            self.law_white_surfaces_pass_the_background_on(
                white,
                Some(product),
                next,
                depth - 1,
                color,
            );
        }
    }
}

} // verus!
