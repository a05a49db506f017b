//! A renderer, as the library sees it: the arithmetic of the geometry, the
//! shading and the camera, handed over as functions.
//!
//! Rays and colours are types of the renderer's own. A ray may carry with
//! it whatever its functions need, such as the random source of the sample
//! it belongs to. The library calls the functions and decides what to do
//! with what they return; it never looks inside a ray or a colour.

use crate::hit::{Hit, Roots};
use vstd::prelude::*;

verus! {

/// The functions of a renderer.
pub struct Renderer<C, GetRay, Crossings, Scatter, Background, Tint, Plus> {
    /// The colour of no light at all.
    pub black: C,
    /// Shoots the camera ray of one sample: it is given the column and the
    /// scanline of the pixel and the seed of the sample.
    pub get_ray: GetRay,
    /// The crossings of a ray with the surfaces of the world: for each
    /// surface, in list order, the two roots of the ray on it, or `None`
    /// where the ray misses the surface.
    pub crossings: Crossings,
    /// What the material at a hit does with a ray: the scattered ray and
    /// its attenuation, or `None` where the ray is absorbed.
    pub scatter: Scatter,
    /// The radiance of the background in the direction of a ray.
    pub background: Background,
    /// The product of two colours, channel by channel: the attenuation
    /// carried so far times one more factor.
    pub tint: Tint,
    /// The sum of two colours, channel by channel: the sum so far plus one
    /// more sample.
    pub plus: Plus,
}

impl<
    R,
    C,
    GetRay: Fn(u32, u32, u64) -> R,
    Crossings: Fn(&R) -> Vec<Option<Roots>>,
    Scatter: Fn(R, Hit) -> Option<(R, C)>,
    Background: Fn(R) -> C,
    Tint: Fn(C, C) -> C,
    Plus: Fn(C, C) -> C,
> Renderer<C, GetRay, Crossings, Scatter, Background, Tint, Plus> {
    /// The functions may be called on whatever the library hands them.
    pub open spec fn callable(&self) -> bool {
        &&& forall|column: u32, scanline: u32, seed: u64|
            call_requires(self.get_ray, (column, scanline, seed))
        &&& forall|ray: &R| call_requires(self.crossings, (ray,))
        &&& forall|ray: R, hit: Hit| call_requires(self.scatter, (ray, hit))
        &&& forall|ray: R| call_requires(self.background, (ray,))
        &&& forall|a: C, b: C| call_requires(self.tint, (a, b))
        &&& forall|a: C, b: C| call_requires(self.plus, (a, b))
    }

    /// Every function has one outcome for given arguments: whatever chance
    /// a function uses, it takes from the seed or from the ray that it is
    /// handed.
    pub open spec fn one_way(&self) -> bool {
        &&& forall|column: u32, scanline: u32, seed: u64, ray: R, other: R|
            #![trigger
                call_ensures(self.get_ray, (column, scanline, seed), ray),
                call_ensures(self.get_ray, (column, scanline, seed), other)
            ]
            call_ensures(self.get_ray, (column, scanline, seed), ray) && call_ensures(
                self.get_ray,
                (column, scanline, seed),
                other,
            ) ==> ray == other
        &&& forall|ray: &R, found: Vec<Option<Roots>>, other: Vec<Option<Roots>>|
            #![trigger
                call_ensures(self.crossings, (ray,), found),
                call_ensures(self.crossings, (ray,), other)
            ]
            call_ensures(self.crossings, (ray,), found) && call_ensures(
                self.crossings,
                (ray,),
                other,
            ) ==> found@ == other@
        &&& forall|ray: R, hit: Hit, out: Option<(R, C)>, other: Option<(R, C)>|
            #![trigger
                call_ensures(self.scatter, (ray, hit), out),
                call_ensures(self.scatter, (ray, hit), other)
            ]
            call_ensures(self.scatter, (ray, hit), out) && call_ensures(
                self.scatter,
                (ray, hit),
                other,
            ) ==> out == other
        &&& forall|ray: R, color: C, other: C|
            #![trigger
                call_ensures(self.background, (ray,), color),
                call_ensures(self.background, (ray,), other)
            ]
            call_ensures(self.background, (ray,), color) && call_ensures(
                self.background,
                (ray,),
                other,
            ) ==> color == other
        &&& forall|a: C, b: C, out: C, other: C|
            #![trigger
                call_ensures(self.tint, (a, b), out),
                call_ensures(self.tint, (a, b), other)
            ]
            call_ensures(self.tint, (a, b), out) && call_ensures(self.tint, (a, b), other) ==> out
                == other
        &&& forall|a: C, b: C, out: C, other: C|
            #![trigger
                call_ensures(self.plus, (a, b), out),
                call_ensures(self.plus, (a, b), other)
            ]
            call_ensures(self.plus, (a, b), out) && call_ensures(self.plus, (a, b), other) ==> out
                == other
    }
}

} // verus!
