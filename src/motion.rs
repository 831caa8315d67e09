//! How the scene entities are spread when they move: entity by entity, in the
//! order in which they are visited, the sideways swing changes side and grows
//! by half of the first entity's swing.

use vstd::prelude::*;

verus! {

/// The signed swing of the entity visited at position `i`, in halves of the
/// first entity's swing: the side starts positive and alternates, the size
/// starts at one and grows by one half per entity.
pub open spec fn amplitude_halves(i: int) -> int {
    if i % 2 == 0 {
        i + 2
    } else {
        -(i + 2)
    }
}

/// The signed swing, in halves, of each of `count` entities, in the order in
/// which they are visited.
pub fn scene_entity_amplitudes(count: usize) -> (r: Vec<i64>)
    requires
        count + 2 <= i64::MAX,
    ensures
        r@.len() == count,
        forall|i: int| 0 <= i < count ==> r@[i] == amplitude_halves(i),
{
    let mut r: Vec<i64> = Vec::new();
    let mut direction: i64 = 1;
    let mut scale: i64 = 2;
    let mut i: usize = 0;
    while i < count
        invariant
            i <= count, count + 2 <= i64::MAX,
            r@.len() == i,
            scale == i + 2,
            direction == if i % 2 == 0 {
                1i64
            } else {
                -1i64
            },
            forall|j: int| 0 <= j < i ==> r@[j] == amplitude_halves(j),
        decreases count - i,
    {
        r.push(direction * scale);
        direction = -direction;
        scale = scale + 1;
        i = i + 1;
    }
    r
}

} // verus!
