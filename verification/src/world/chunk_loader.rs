//! Loaders keep a cuboid of chunks around a position resident. When a
//! loader moves or changes its reach, the chunks that enter its cuboid are
//! to be loaded and those that leave it are to be unloaded.

use vstd::prelude::*;
use crate::types::{ChunkPos, UVec3};
use crate::world::chunk_region::ChunkRegion;

verus! {

/// Filtering a sequence with one more element filters what was there and
/// keeps the new element if it passes.
pub proof fn lemma_filter_push<A>(s: Seq<A>, x: A, pred: spec_fn(A) -> bool)
    ensures
        s.push(x).filter(pred) == if pred(x) {
            s.filter(pred).push(x)
        } else {
            s.filter(pred)
        },
{
    reveal(Seq::filter);
    assert(s.push(x).drop_last() =~= s);
}

/// A filtered sequence holds exactly the elements that pass, and holds
/// none twice if the sequence held none twice.
pub proof fn lemma_filter_members<A>(s: Seq<A>, pred: spec_fn(A) -> bool)
    ensures
        forall|x: A| #[trigger] s.filter(pred).contains(x) <==> s.contains(x) && pred(x),
        s.no_duplicates() ==> s.filter(pred).no_duplicates(),
    decreases s.len(),
{
    reveal(Seq::filter);
    if s.len() > 0 {
        let d = s.drop_last();
        let last = s.last();
        lemma_filter_members(d, pred);
        let f = s.filter(pred);
        let fd = d.filter(pred);
        assert(f == if pred(last) {
            fd.push(last)
        } else {
            fd
        });
        assert forall|x: A| #[trigger] f.contains(x) <==> s.contains(x) && pred(x) by {
            if f.contains(x) {
                let i = choose|i: int| 0 <= i < f.len() && f[i] == x;
                if pred(last) && i == f.len() - 1 {
                    assert(s[s.len() - 1] == x);
                } else {
                    assert(fd[i] == x);
                    assert(fd.contains(x));
                    let j = choose|j: int| 0 <= j < d.len() && d[j] == x;
                    assert(s[j] == x);
                }
            }
            if s.contains(x) && pred(x) {
                let j = choose|j: int| 0 <= j < s.len() && s[j] == x;
                if j == s.len() - 1 {
                    assert(f[f.len() - 1] == x);
                } else {
                    assert(d[j] == x);
                    assert(d.contains(x));
                    assert(fd.contains(x));
                    let i = choose|i: int| 0 <= i < fd.len() && fd[i] == x;
                    assert(f[i] == x);
                }
            }
        }
        if s.no_duplicates() {
            assert(d.no_duplicates());
            if pred(last) {
                assert forall|i: int, j: int| 0 <= i < j < f.len() implies f[i] != f[j] by {
                    if j == f.len() - 1 {
                        assert(fd[i] == f[i]);
                        assert(fd.contains(f[i]));
                        let k = choose|k: int| 0 <= k < d.len() && d[k] == f[i];
                        assert(s[k] == f[i]);
                    } else {
                        assert(fd[i] == f[i] && fd[j] == f[j]);
                    }
                }
            }
        }
    }
}

/// The chunks of `a` that are not in `b`, in the canonical order of `a`.
pub open spec fn spec_region_difference(a: ChunkRegion, b: ChunkRegion) -> Seq<ChunkPos> {
    a.spec_chunks().filter(|p: ChunkPos| !b.spec_contains_chunk(p))
}

/// The difference of two regions holds a chunk exactly if the first region
/// holds it and the second does not, and holds no chunk twice.
pub proof fn lemma_region_difference(a: ChunkRegion, b: ChunkRegion)
    requires
        a.in_range(),
    ensures
        forall|p: ChunkPos| #[trigger]
            spec_region_difference(a, b).contains(p) <==> a.spec_contains_chunk(p)
                && !b.spec_contains_chunk(p),
        spec_region_difference(a, b).no_duplicates(),
{
    a.lemma_chunks();
    let s = a.spec_chunks();
    let pred = |p: ChunkPos| !b.spec_contains_chunk(p);
    lemma_filter_members(s, pred);
    assert forall|p: ChunkPos| #[trigger] s.contains(p) <==> a.spec_contains_chunk(p) by {
        if s.contains(p) {
            let i = choose|i: int| 0 <= i < s.len() && s[i] == p;
            assert(a.spec_contains_chunk(s[i]));
        }
        if a.spec_contains_chunk(p) {
            assert(s[a.spec_index(p)] == p);
        }
    }
}

/// A cuboid without chunks takes nothing away from another cuboid and has
/// nothing to lose itself.
pub proof fn lemma_difference_with_nothing(a: ChunkRegion, nothing: ChunkRegion)
    requires
        a.in_range(),
        nothing.in_range(),
        nothing.spec_chunk_count() == 0,
    ensures
        spec_region_difference(a, nothing) == a.spec_chunks(),
        spec_region_difference(nothing, a).len() == 0,
{
    a.lemma_chunks();
    nothing.lemma_chunks();
    let s = a.spec_chunks();
    let pred = |p: ChunkPos| !nothing.spec_contains_chunk(p);
    assert forall|p: ChunkPos| !nothing.spec_contains_chunk(p) by {
        if nothing.spec_contains_chunk(p) {
            assert(0 <= nothing.spec_index(p) < nothing.spec_chunk_count());
        }
    }
    lemma_filter_all(s, pred);
    reveal(Seq::filter);
    assert(nothing.spec_chunks() =~= Seq::<ChunkPos>::empty());
}

/// Filtering a sequence of which every element passes keeps all of it.
pub proof fn lemma_filter_all<A>(s: Seq<A>, pred: spec_fn(A) -> bool)
    requires
        forall|i: int| 0 <= i < s.len() ==> pred(#[trigger] s[i]),
    ensures
        s.filter(pred) == s,
    decreases s.len(),
{
    reveal(Seq::filter);
    if s.len() > 0 {
        lemma_filter_all(s.drop_last(), pred);
        assert(s.drop_last().push(s.last()) =~= s);
    }
}

/// When the resident cuboid of a loader changes from `last` to `current`,
/// the chunks to load are exactly those of `current` that are not in
/// `last`, the chunks to unload exactly those of `last` that are not in
/// `current`, and a chunk of both cuboids is in neither list.
pub proof fn lemma_loader_diff(last: ChunkRegion, current: ChunkRegion, p: ChunkPos)
    requires
        last.in_range(),
        current.in_range(),
    ensures
        spec_region_difference(current, last).contains(p) <==> current.spec_contains_chunk(p)
            && !last.spec_contains_chunk(p),
        spec_region_difference(last, current).contains(p) <==> last.spec_contains_chunk(p)
            && !current.spec_contains_chunk(p),
        last.spec_contains_chunk(p) && current.spec_contains_chunk(p) ==> !spec_region_difference(
            current,
            last,
        ).contains(p) && !spec_region_difference(last, current).contains(p),
        !(spec_region_difference(current, last).contains(p) && spec_region_difference(
            last,
            current,
        ).contains(p)),
        spec_region_difference(current, last).no_duplicates(),
        spec_region_difference(last, current).no_duplicates(),
{
    lemma_region_difference(current, last);
    lemma_region_difference(last, current);
}

/// The chunks of `a` that are not in `b`, in the canonical order of `a`.
pub fn region_difference(a: &ChunkRegion, b: &ChunkRegion) -> (r: Vec<ChunkPos>)
    requires
        a.in_range(),
    ensures
        r@ == spec_region_difference(*a, *b),
{
    let ghost pred = |p: ChunkPos| !b.spec_contains_chunk(p);
    let ghost all = a.spec_chunks();
    let mut out: Vec<ChunkPos> = Vec::new();
    let mut iter = a.iter_chunks();
    let mut done: bool = false;
    proof {
        a.lemma_chunks();
        reveal(Seq::filter);
        assert(all.take(0) =~= Seq::<ChunkPos>::empty());
    }
    while !done
        invariant
            a.in_range(),
            iter.spec_valid(),
            iter.spec_region() == *a,
            all == a.spec_chunks(),
            all.len() == a.spec_chunk_count(),
            pred == (|p: ChunkPos| !b.spec_contains_chunk(p)),
            0 <= iter.spec_position() <= all.len(),
            out@ == all.take(iter.spec_position()).filter(pred),
            done ==> iter.spec_position() == all.len(),
        decreases
                (all.len() - iter.spec_position()) * 2 + (if done {
                    0int
                } else {
                    1int
                }),
    {
        let ghost position = iter.spec_position();
        match iter.next() {
            Some(chunk_pos) => {
                proof {
                    assert(all.take(position + 1) =~= all.take(position).push(chunk_pos));
                    lemma_filter_push(all.take(position), chunk_pos, pred);
                }
                if !b.contains_chunk(chunk_pos) {
                    out.push(chunk_pos);
                }
            },
            None => {
                done = true;
            },
        }
    }
    proof {
        assert(all.take(all.len() as int) =~= all);
    }
    out
}

/// What has to happen when a loader has moved or changed its reach.
#[derive(Debug)]
pub struct LoaderUpdate {
    /// The chunks that entered the resident cuboid, in its canonical order.
    pub load: Vec<ChunkPos>,
    /// The chunks that left the resident cuboid, in the canonical order of
    /// the cuboid that was resident before.
    pub unload: Vec<ChunkPos>,
}

/// Something that keeps the chunks within a distance around it resident.
#[derive(Debug, Clone, Copy)]
pub struct ChunkLoader {
    pub position: ChunkPos,
    /// The reach along each axis, the chunk of the loader included. With a
    /// reach of 1, and also with a reach of 0, the resident cuboid is one
    /// chunk thick along that axis.
    pub load_distance: UVec3,
    /// The position at which the chunks were last brought up to date.
    pub last_position: ChunkPos,
    /// The reach with which the chunks were last brought up to date.
    pub last_load_distance: UVec3,
    /// True once the chunks have been brought up to date. Until then
    /// nothing is resident for this loader.
    pub resident: bool,
}

/// The least coordinate of the resident chunks along one axis.
pub open spec fn region_min(position: int, distance: int) -> int {
    if distance == 0 {
        position
    } else {
        position - (distance - 1)
    }
}

/// The number of resident chunks along one axis: the chunk of the loader
/// and `distance - 1` chunks on each side of it, and the chunk of the
/// loader alone where the distance is 0.
pub open spec fn region_size(distance: int) -> int {
    if distance == 0 {
        1
    } else {
        distance * 2 - 1
    }
}

/// Along one axis the resident chunks lie evenly around the position, hold
/// the position, are one chunk where the distance is 0 or 1, and a greater
/// distance keeps every chunk that a smaller one has.
pub proof fn lemma_region_axis(position: int, distance: int, greater: int)
    requires
        0 <= distance <= greater,
    ensures
        region_size(distance) >= 1,
        region_min(position, distance) <= position < region_min(position, distance) + region_size(
            distance,
        ),
        region_min(position, distance) + (region_min(position, distance) + region_size(distance))
            - 1 == 2 * position,
        distance <= 1 ==> region_min(position, distance) == position && region_size(distance) == 1,
        region_min(position, greater) <= region_min(position, distance),
        region_min(position, distance) + region_size(distance) <= region_min(position, greater)
            + region_size(greater),
{
}

/// True if the resident chunks along one axis, for a loader at `position`
/// with reach `distance`, have coordinates that fit in `i32`.
pub open spec fn axis_fits(position: int, distance: int) -> bool {
    distance == 0 || (distance <= 0x4000_0000 && i32::MIN <= position - (distance - 1) && position
        + (distance - 1) <= i32::MAX)
}

impl ChunkLoader {
    /// True if every chunk within `load_distance` around `position` has
    /// coordinates that fit in `i32`.
    pub open spec fn fits(position: ChunkPos, load_distance: UVec3) -> bool {
        &&& axis_fits(position.x as int, load_distance.x as int)
        &&& axis_fits(position.y as int, load_distance.y as int)
        &&& axis_fits(position.z as int, load_distance.z as int)
    }

    /// The cuboid of the chunks within `load_distance` around `position`:
    /// along each axis `2 * distance - 1` chunks with `position` in the
    /// middle, and the one chunk at `position` where the distance is 0.
    pub open spec fn spec_chunk_region(position: ChunkPos, load_distance: UVec3) -> ChunkRegion {
        ChunkRegion {
            min_chunk: ChunkPos {
                x: region_min(position.x as int, load_distance.x as int) as i32,
                y: region_min(position.y as int, load_distance.y as int) as i32,
                z: region_min(position.z as int, load_distance.z as int) as i32,
            },
            size: UVec3 {
                x: region_size(load_distance.x as int) as u32,
                y: region_size(load_distance.y as int) as u32,
                z: region_size(load_distance.z as int) as u32,
            },
        }
    }

    pub open spec fn spec_current_loaded_region(self) -> ChunkRegion {
        Self::spec_chunk_region(self.position, self.load_distance)
    }

    /// The cuboid that was resident when the chunks were last brought up
    /// to date; a cuboid without chunks as long as nothing is resident.
    pub open spec fn spec_last_loaded_region(self) -> ChunkRegion {
        if self.resident {
            Self::spec_chunk_region(self.last_position, self.last_load_distance)
        } else {
            ChunkRegion { min_chunk: self.last_position, size: UVec3 { x: 0, y: 0, z: 0 } }
        }
    }

    /// True if the chunks have to be brought up to date: nothing is
    /// resident yet, or the loader has moved or changed its reach.
    pub open spec fn spec_has_changed(self) -> bool {
        !self.resident || self.position != self.last_position || self.load_distance
            != self.last_load_distance
    }

    /// True if the cuboid that was last resident has coordinates that fit
    /// in `i32`, as it has for every loader that this module hands out.
    pub open spec fn last_fits(self) -> bool {
        !self.resident || Self::fits(self.last_position, self.last_load_distance)
    }

    /// The resident cuboid always holds the chunk of the loader, lies
    /// evenly around it on every axis, and loses no chunk when the reach
    /// grows.
    pub proof fn lemma_chunk_region(position: ChunkPos, load_distance: UVec3, greater: UVec3)
        requires
            Self::fits(position, load_distance),
            Self::fits(position, greater),
            load_distance.x <= greater.x,
            load_distance.y <= greater.y,
            load_distance.z <= greater.z,
        ensures
            Self::spec_chunk_region(position, load_distance).spec_contains_chunk(position),
            Self::spec_chunk_region(position, load_distance).in_range(),
            Self::spec_chunk_region(position, load_distance).spec_chunk_count() >= 1,
            ({
                let r = Self::spec_chunk_region(position, load_distance);
                &&& r.min_chunk.x + (r.min_chunk.x + r.size.x) - 1 == 2 * position.x
                &&& r.min_chunk.y + (r.min_chunk.y + r.size.y) - 1 == 2 * position.y
                &&& r.min_chunk.z + (r.min_chunk.z + r.size.z) - 1 == 2 * position.z
                &&& load_distance.x == 0 ==> r.min_chunk.x == position.x && r.size.x == 1
                &&& load_distance.y == 0 ==> r.min_chunk.y == position.y && r.size.y == 1
                &&& load_distance.z == 0 ==> r.min_chunk.z == position.z && r.size.z == 1
            }),
            forall|p: ChunkPos| #[trigger]
                Self::spec_chunk_region(position, load_distance).spec_contains_chunk(p)
                    ==> Self::spec_chunk_region(position, greater).spec_contains_chunk(p),
    {
        lemma_region_axis(position.x as int, load_distance.x as int, greater.x as int);
        lemma_region_axis(position.y as int, load_distance.y as int, greater.y as int);
        lemma_region_axis(position.z as int, load_distance.z as int, greater.z as int);
        let r = Self::spec_chunk_region(position, load_distance);
        let sx = r.size.x as int;
        let sy = r.size.y as int;
        let sz = r.size.z as int;
        assert(sx * sy * sz >= 1) by (nonlinear_arith)
            requires
                sx >= 1,
                sy >= 1,
                sz >= 1,
        ;
    }

    /// A loader at `position` for which nothing is resident yet, so that
    /// its first update loads the whole cuboid around it.
    pub fn new(position: ChunkPos, load_distance: UVec3) -> (r: Self)
        ensures
            r.position == position,
            r.load_distance == load_distance,
            r.last_position == (ChunkPos { x: 0, y: 0, z: 0 }),
            r.last_load_distance == (UVec3 { x: 0, y: 0, z: 0 }),
            !r.resident,
            r.last_fits(),
            r.spec_has_changed(),
            r.spec_last_loaded_region().spec_chunk_count() == 0,
    {
        let r = ChunkLoader {
            position,
            load_distance,
            last_position: ChunkPos::new(0, 0, 0),
            last_load_distance: UVec3::new(0, 0, 0),
            resident: false,
        };
        proof {
            assert(r.spec_last_loaded_region().spec_chunk_count() == 0) by (nonlinear_arith)
                requires
                    r.spec_last_loaded_region().size.x == 0,
                    r.spec_last_loaded_region().spec_chunk_count()
                        == r.spec_last_loaded_region().size.x * r.spec_last_loaded_region().size.y
                        * r.spec_last_loaded_region().size.z,
            ;
        }
        r
    }

    /// Moves the loader to the chunk at `position`.
    pub fn move_to(&mut self, position: ChunkPos)
        ensures
            final(self).position == position,
            final(self).load_distance == old(self).load_distance,
            final(self).last_position == old(self).last_position,
            final(self).last_load_distance == old(self).last_load_distance,
            final(self).resident == old(self).resident,
    {
        self.position = position;
    }

    /// The cuboid of the chunks within `load_distance` around `position`:
    /// it lies evenly around `position` and always holds it; where a
    /// distance is 0 it is one chunk thick.
    pub fn chunk_region_inner(position: ChunkPos, load_distance: UVec3) -> (r: ChunkRegion)
        requires
            Self::fits(position, load_distance),
        ensures
            r == Self::spec_chunk_region(position, load_distance),
            r.in_range(),
            r.spec_contains_chunk(position),
            r.size.x >= 1 && r.size.y >= 1 && r.size.z >= 1,
    {
        ChunkRegion {
            min_chunk: ChunkPos {
                x: Self::axis_min(position.x, load_distance.x),
                y: Self::axis_min(position.y, load_distance.y),
                z: Self::axis_min(position.z, load_distance.z),
            },
            size: UVec3 {
                x: Self::axis_size(load_distance.x),
                y: Self::axis_size(load_distance.y),
                z: Self::axis_size(load_distance.z),
            },
        }
    }

    fn axis_min(position: i32, distance: u32) -> (r: i32)
        requires
            axis_fits(position as int, distance as int),
        ensures
            r == region_min(position as int, distance as int),
    {
        if distance == 0 {
            position
        } else {
            position - (distance - 1) as i32
        }
    }

    fn axis_size(distance: u32) -> (r: u32)
        requires
            distance <= 0x4000_0000,
        ensures
            r == region_size(distance as int),
    {
        if distance == 0 {
            1
        } else {
            distance * 2 - 1
        }
    }

    /// The cuboid that is to be resident now.
    pub fn current_loaded_region(&self) -> (r: ChunkRegion)
        requires
            Self::fits(self.position, self.load_distance),
        ensures
            r == self.spec_current_loaded_region(),
            r.in_range(),
            r.spec_contains_chunk(self.position),
    {
        Self::chunk_region_inner(self.position, self.load_distance)
    }

    /// The cuboid that was resident when the chunks were last brought up
    /// to date; a cuboid without chunks as long as nothing is resident.
    pub fn last_loaded_region(&self) -> (r: ChunkRegion)
        requires
            self.last_fits(),
        ensures
            r == self.spec_last_loaded_region(),
            r.in_range(),
            !self.resident ==> r.spec_chunk_count() == 0,
    {
        if self.resident {
            Self::chunk_region_inner(self.last_position, self.last_load_distance)
        } else {
            let r = ChunkRegion { min_chunk: self.last_position, size: UVec3::new(0, 0, 0) };
            proof {
                assert(r.spec_chunk_count() == 0) by (nonlinear_arith)
                    requires
                        r.size.x == 0,
                        r.spec_chunk_count() == r.size.x * r.size.y * r.size.z,
                ;
            }
            r
        }
    }

    /// True if the chunks have to be brought up to date: nothing is
    /// resident yet, or the loader has moved or changed its reach since
    /// the last time.
    pub fn has_changed(&self) -> (r: bool)
        ensures
            r == self.spec_has_changed(),
    {
        !self.resident || self.position != self.last_position || self.load_distance
            != self.last_load_distance
    }

    /// True if a loader can be at `position` with reach `load_distance`.
    pub fn can_hold(position: ChunkPos, load_distance: UVec3) -> (r: bool)
        ensures
            r == Self::fits(position, load_distance),
    {
        Self::axis_can_hold(position.x, load_distance.x) && Self::axis_can_hold(
            position.y,
            load_distance.y,
        ) && Self::axis_can_hold(position.z, load_distance.z)
    }

    fn axis_can_hold(position: i32, distance: u32) -> (r: bool)
        ensures
            r == axis_fits(position as int, distance as int),
    {
        if distance == 0 {
            true
        } else if distance > 0x4000_0000 {
            false
        } else {
            let reach: i64 = distance as i64 - 1;
            position as i64 - reach >= i32::MIN as i64 && position as i64 + reach <= i32::MAX as i64
        }
    }

    /// Brings the resident chunks up to date. If the loader has not changed
    /// since the last time, nothing is to be done. Else the chunks of the
    /// new cuboid that were not in the old one are to be loaded, those of
    /// the old cuboid that are not in the new one are to be unloaded, and
    /// the new cuboid is remembered as the one that is resident. For a new
    /// loader nothing was resident, so the whole cuboid is to be loaded.
    pub fn update(&mut self) -> (r: LoaderUpdate)
        requires
            Self::fits(old(self).position, old(self).load_distance),
            old(self).last_fits(),
        ensures
            final(self).position == old(self).position,
            final(self).load_distance == old(self).load_distance,
            final(self).last_position == old(self).position,
            final(self).last_load_distance == old(self).load_distance,
            final(self).resident,
            final(self).last_fits(),
            !final(self).spec_has_changed(),
            !old(self).resident ==> r.load@ == old(self).spec_current_loaded_region().spec_chunks()
                && r.unload@.len() == 0,
            old(self).spec_has_changed() ==> r.load@ == spec_region_difference(
                old(self).spec_current_loaded_region(),
                old(self).spec_last_loaded_region(),
            ) && r.unload@ == spec_region_difference(
                old(self).spec_last_loaded_region(),
                old(self).spec_current_loaded_region(),
            ),
            !old(self).spec_has_changed() ==> r.load@.len() == 0 && r.unload@.len() == 0,
    {
        if !self.has_changed() {
            return LoaderUpdate { load: Vec::new(), unload: Vec::new() };
        }
        let current_region = self.current_loaded_region();
        let last_region = self.last_loaded_region();
        let load = region_difference(&current_region, &last_region);
        let unload = region_difference(&last_region, &current_region);
        proof {
            if !self.resident {
                lemma_difference_with_nothing(current_region, last_region);
            }
        }
        self.last_position = self.position;
        self.last_load_distance = self.load_distance;
        self.resident = true;
        LoaderUpdate { load, unload }
    }
}

} // verus!
