//! Intersection records.

use vstd::prelude::*;


verus! {

/// A confirmed intersection: the parameter along the world-space ray,
/// the index of the shape that was hit, and the barycentric
/// coordinates when a triangle produced it.
#[derive(Clone, Copy, Debug, PartialEq, Eq)]
pub struct Intersection {
    pub t: i64,
    pub shape: usize,
    pub uv: Option<(i64, i64)>,
}

/// The closest intersection with a positive parameter, if any.
pub fn hit(xs: &Vec<Intersection>) -> (res: Option<Intersection>)
    ensures
        match res {
            Option::Some(x) => x.t > 0 && (exists|i: int|
                0 <= i < xs.len() && xs[i] == x) && (forall|i: int|
                0 <= i < xs.len() && (#[trigger] xs[i]).t > 0 ==> x.t <= xs[i].t),
            Option::None => forall|i: int| 0 <= i < xs.len() ==> (#[trigger] xs[i]).t <= 0,
        },
{
    let mut best: Option<Intersection> = Option::None;
    let mut i: usize = 0;
    while i < xs.len()
        invariant
            0 <= i <= xs.len(),
            match best {
                Option::Some(x) => x.t > 0 && (exists|j: int|
                    0 <= j < i && xs[j] == x) && (forall|j: int|
                    0 <= j < i && (#[trigger] xs[j]).t > 0 ==> x.t <= xs[j].t),
                Option::None => forall|j: int| 0 <= j < i ==> (#[trigger] xs[j]).t <= 0,
            },
        decreases xs.len() - i,
    {
        let x = *xs.get(i).unwrap();
        if x.t > 0 {
            best = match best {
                Option::Some(b) => if x.t < b.t {
                    Option::Some(x)
                } else {
                    Option::Some(b)
                },
                Option::None => Option::Some(x),
            };
        }
        i = i + 1;
    }
    best
}

} // verus!
