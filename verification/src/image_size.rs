//! The closed set of aspect-ratio classes and their concrete size multiples.

use vstd::prelude::*;

verus! {

/// A named aspect-ratio class. Each class owns an ordered, non-empty list of
/// concrete (width, height) size multiples, all sharing the same reduced ratio.
#[derive(Debug, Clone, Copy, PartialEq, Eq, Structural)]
pub enum ImageSize {
    Square,
    Wide,
    LongRectangle,
    Tall,
    TallRectangle,
}

/// The size multiples owned by a class, smallest first.
pub open spec fn sizes_of(s: ImageSize) -> Seq<(u32, u32)> {
    match s {
        ImageSize::Square => seq![(1u32, 1u32), (2u32, 2u32), (3u32, 3u32), (4u32, 4u32)],
        ImageSize::Wide => seq![(2u32, 1u32), (4u32, 2u32)],
        ImageSize::LongRectangle => seq![(4u32, 3u32)],
        ImageSize::Tall => seq![(1u32, 2u32), (2u32, 4u32)],
        ImageSize::TallRectangle => seq![(3u32, 4u32)],
    }
}

/// The classes in declared enumeration order.
pub open spec fn all_sizes() -> Seq<ImageSize> {
    seq![
        ImageSize::Square,
        ImageSize::Wide,
        ImageSize::LongRectangle,
        ImageSize::Tall,
        ImageSize::TallRectangle,
    ]
}

impl ImageSize {
    /// Every class in declared order, for callers that walk the whole catalog.
    pub fn iter() -> (r: Vec<ImageSize>)
        ensures
            r@ == all_sizes(),
    {
        let r: Vec<ImageSize> = vec![
            ImageSize::Square,
            ImageSize::Wide,
            ImageSize::LongRectangle,
            ImageSize::Tall,
            ImageSize::TallRectangle,
        ];
        proof {
            assert(r@ =~= all_sizes());
        }
        r
    }

    /// The concrete size multiples of this class, smallest first.
    pub fn get_size(&self) -> (r: Vec<(u32, u32)>)
        ensures
            r@ == sizes_of(*self),
            r@.len() >= 1,
    {
        let r: Vec<(u32, u32)> = match self {
            ImageSize::Square => vec![(1u32, 1u32), (2u32, 2u32), (3u32, 3u32), (4u32, 4u32)],
            ImageSize::Wide => vec![(2u32, 1u32), (4u32, 2u32)],
            ImageSize::LongRectangle => vec![(4u32, 3u32)],
            ImageSize::Tall => vec![(1u32, 2u32), (2u32, 4u32)],
            ImageSize::TallRectangle => vec![(3u32, 4u32)],
        };
        proof {
            assert(r@ =~= sizes_of(*self));
        }
        r
    }
}

/// `pair` is `base` scaled by the integer factor `k` in both dimensions.
pub open spec fn scaled_pair(pair: (u32, u32), base: (u32, u32), k: int) -> bool {
    pair.0 == k * base.0 && pair.1 == k * base.1
}

/// Catalog invariant: within a class, the i-th size multiple is the class's
/// first (smallest) pair scaled by the integer factor i + 1, so every multiple
/// shares one reduced ratio.
pub proof fn lemma_sizes_share_ratio(s: ImageSize)
    ensures
        sizes_of(s).len() >= 1,
        forall|i: int| #![trigger sizes_of(s)[i]]
            0 <= i < sizes_of(s).len() ==> scaled_pair(sizes_of(s)[i], sizes_of(s)[0], i + 1),
{
    assert forall|i: int| #![trigger sizes_of(s)[i]]
        0 <= i < sizes_of(s).len() implies scaled_pair(sizes_of(s)[i], sizes_of(s)[0], i + 1) by {
        let base = sizes_of(s)[0];
        if i == 0 {
            assert(scaled_pair(sizes_of(s)[0], base, 1));
        } else if i == 1 {
            assert(scaled_pair(sizes_of(s)[1], base, 2));
        } else if i == 2 {
            assert(scaled_pair(sizes_of(s)[2], base, 3));
        } else {
            assert(i == 3);
            assert(scaled_pair(sizes_of(s)[3], base, 4));
        }
    }
}

} // verus!
