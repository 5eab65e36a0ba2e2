//! Paint ordering.
//!
//! A renderer consumes the layout map by painting the records that carry a
//! paint payload in ascending paint order.  `paint_order` computes that
//! order: the ids of all paintable slots, each exactly once, sorted by their
//! `z` index.  Ties keep no particular order, matching the unordered table
//! the map is.

use vstd::prelude::*;

use crate::record::{CwModel, LayoutMap};

verus! {

/// Whether slot `j` holds a record with a paint payload.
pub open spec fn paintable(m: Seq<Option<CwModel>>, j: int) -> bool {
    0 <= j < m.len() && (m[j] matches Some(c) && c.render is Some)
}

/// The paint-order index of the record in slot `j`.
pub open spec fn slot_z(m: Seq<Option<CwModel>>, j: int) -> int {
    match m[j] {
        Some(c) => c.z,
        None => 0,
    }
}

/// Reads the paint-order index of a paintable slot.
fn slot_z_exec(map: &LayoutMap, id: usize) -> (z: u64)
    requires
        paintable(map@, id as int),
    ensures
        z as int == slot_z(map@, id as int),
{
    match &map.slots[id] {
        Some(c) => c.z,
        None => {
            proof {
                assert(false);
            }
            0
        },
    }
}

/// The ids of every record that paints, each exactly once, in ascending
/// paint order.  A renderer walks this list front to back.
pub fn paint_order(map: &LayoutMap) -> (ids: Vec<usize>)
    ensures
        forall|k: int| 0 <= k < ids@.len() ==> paintable(map@, (#[trigger] ids@[k]) as int),
        forall|k1: int, k2: int|
            0 <= k1 < k2 < ids@.len() ==> slot_z(map@, ids@[k1] as int) <= slot_z(
                map@,
                ids@[k2] as int,
            ),
        forall|j: int| paintable(map@, j) ==> ids@.contains(j as usize),
        forall|k1: int, k2: int| 0 <= k1 < k2 < ids@.len() ==> ids@[k1] != ids@[k2],
{
    let n = map.slots.len();
    let mut ids: Vec<usize> = Vec::new();
    let mut j: usize = 0;
    while j < n
        invariant
            j <= n,
            n == map@.len(),
            forall|k: int| 0 <= k < ids@.len() ==> paintable(map@, (#[trigger] ids@[k]) as int),
            forall|jj: int| 0 <= jj < j && paintable(map@, jj) ==> ids@.contains(jj as usize),
            forall|k1: int, k2: int| 0 <= k1 < k2 < ids@.len() ==> ids@[k1] != ids@[k2],
            forall|k: int| 0 <= k < ids@.len() ==> (#[trigger] ids@[k]) < j,
        decreases n - j,
    {
        let is_paintable = match &map.slots[j] {
            Some(c) => c.render.is_some(),
            None => false,
        };
        if is_paintable {
            let ghost old_ids = ids@;
            ids.push(j);
            proof {
                assert(ids@[ids@.len() - 1] == j);
                assert forall|jj: int|
                    0 <= jj < j + 1 && paintable(map@, jj) implies ids@.contains(jj as usize) by {
                    if jj < j {
                        let w = choose|w: int| 0 <= w < old_ids.len() && old_ids[w] == jj as usize;
                        assert(ids@[w] == jj as usize);
                    } else {
                        assert(ids@[ids@.len() - 1] == jj as usize);
                    }
                }
            }
        }
        j = j + 1;
    }
    // Insertion sort on the paint-order index; swapping neighbours keeps
    // the list a permutation of what was collected.
    let len = ids.len();
    let mut s: usize = 1;
    while s < len
        invariant
            1 <= s,
            len == ids@.len(),
            forall|k: int| 0 <= k < ids@.len() ==> paintable(map@, (#[trigger] ids@[k]) as int),
            forall|j2: int| 0 <= j2 < n && paintable(map@, j2) ==> ids@.contains(j2 as usize),
            forall|k1: int, k2: int| 0 <= k1 < k2 < ids@.len() ==> ids@[k1] != ids@[k2],
            forall|k1: int, k2: int|
                0 <= k1 < k2 < s ==> slot_z(map@, ids@[k1] as int) <= slot_z(
                    map@,
                    ids@[k2] as int,
                ),
        decreases len - s,
    {
        let mut p: usize = s;
        let mut done = false;
        while !done
            invariant
                0 <= p <= s < len,
                len == ids@.len(),
                forall|k: int| 0 <= k < ids@.len() ==> paintable(map@, (#[trigger] ids@[k]) as int),
                forall|j2: int| 0 <= j2 < n && paintable(map@, j2) ==> ids@.contains(j2 as usize),
                forall|k1: int, k2: int| 0 <= k1 < k2 < ids@.len() ==> ids@[k1] != ids@[k2],
                forall|k1: int, k2: int|
                    0 <= k1 < k2 <= s && k2 != p ==> slot_z(map@, ids@[k1] as int) <= slot_z(
                        map@,
                        ids@[k2] as int,
                    ),
                done ==> p == 0 || slot_z(map@, ids@[p - 1] as int) <= slot_z(
                    map@,
                    ids@[p as int] as int,
                ),
            decreases p as int + (if done { 0int } else { 1int }),
        {
            if p == 0 {
                done = true;
            } else {
                let za = slot_z_exec(map, ids[p - 1]);
                let zb = slot_z_exec(map, ids[p]);
                if za <= zb {
                    done = true;
                } else {
                    let ghost before = ids@;
                    let a = ids[p - 1];
                    let b = ids[p];
                    ids.set(p - 1, b);
                    ids.set(p, a);
                    proof {
                        assert forall|j2: int|
                            0 <= j2 < n && paintable(map@, j2) implies ids@.contains(
                            j2 as usize,
                        ) by {
                            let w = choose|w: int|
                                0 <= w < before.len() && before[w] == j2 as usize;
                            if w == p - 1 {
                                assert(ids@[p as int] == j2 as usize);
                            } else if w == p {
                                assert(ids@[p - 1] == j2 as usize);
                            } else {
                                assert(ids@[w] == j2 as usize);
                            }
                        }
                    }
                    p = p - 1;
                }
            }
        }
        proof {
            assert forall|k1: int, k2: int|
                0 <= k1 < k2 <= s implies slot_z(map@, ids@[k1] as int) <= slot_z(
                map@,
                ids@[k2] as int,
            ) by {
                if k2 == p && p > 0 {
                    assert(slot_z(map@, ids@[p - 1] as int) <= slot_z(map@, ids@[p as int] as int));
                    if k1 < p - 1 {
                        assert(slot_z(map@, ids@[k1] as int) <= slot_z(map@, ids@[p - 1] as int));
                    }
                }
            }
        }
        s = s + 1;
    }
    ids
}

} // verus!
