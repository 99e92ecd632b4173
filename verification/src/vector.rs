//! Small fixed- and dynamically-sized vectors.

use vstd::prelude::*;

verus! {

/// A statically sized vector of four elements.
#[derive(Clone, Copy, Debug, PartialEq)]
pub struct Vector4<T> {
    pub data: [T; 4],
}

impl<T: Copy> Vector4<T> {
    /// Builds a vector from the first four items of a list, completing
    /// with the given fill element where the list is shorter.
    pub fn from_iter(items: &Vec<T>, fill: T) -> (r: Self)
        ensures
            forall|n: int|
                0 <= n < 4 ==> r.data@[n] == (if n < items@.len() {
                    items@[n]
                } else {
                    fill
                }),
    {
        let x0 = if items.len() > 0 { items[0] } else { fill };
        let x1 = if items.len() > 1 { items[1] } else { fill };
        let x2 = if items.len() > 2 { items[2] } else { fill };
        let x3 = if items.len() > 3 { items[3] } else { fill };
        Vector4 { data: [x0, x1, x2, x3] }
    }
}

/// A dynamically sized vector.
#[derive(Clone, Debug, PartialEq)]
pub struct Vector<T> {
    pub data: Vec<T>,
}

} // verus!
