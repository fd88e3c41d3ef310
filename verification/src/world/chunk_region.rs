//! Axis-aligned cuboids of chunk positions, their canonical order and the
//! flattening of a position into an index of that order.
//!
//! The canonical order runs along z first, then y, then x: the position at
//! offset `(dx, dy, dz)` from the minimum has index `(dx * size.y + dy) *
//! size.z + dz`.

use vstd::prelude::*;
use vstd::arithmetic::div_mod::lemma_fundamental_div_mod_converse;
use crate::types::{ChunkPos, UVec3};

verus! {

/// The index of offset `(dx, dy, dz)` in a cuboid whose extents along y and z
/// are `sy` and `sz`.
pub open spec fn flat_index(dx: int, dy: int, dz: int, sy: int, sz: int) -> int {
    (dx * sy + dy) * sz + dz
}

/// An offset inside a cuboid has an index below the cuboid's volume.
pub proof fn lemma_flat_index_bounds(dx: int, dy: int, dz: int, sx: int, sy: int, sz: int)
    requires
        0 <= dx < sx,
        0 <= dy < sy,
        0 <= dz < sz,
    ensures
        0 <= dx * sy <= dx * sy + dy < sx * sy,
        0 <= (dx * sy + dy) * sz <= flat_index(dx, dy, dz, sy, sz) < sx * sy * sz,
{
    assert(0 <= dx * sy && dx * sy + sy <= sx * sy) by (nonlinear_arith)
        requires
            0 <= dx < sx,
            0 < sy,
    ;
    let q = dx * sy + dy;
    assert(0 <= q * sz && q * sz + sz <= sx * sy * sz) by (nonlinear_arith)
        requires
            0 <= q < sx * sy,
            0 < sz,
    ;
}

/// Division and remainder recover the offset from its index.
pub proof fn lemma_flat_index_inverse(dx: int, dy: int, dz: int, sx: int, sy: int, sz: int)
    requires
        0 <= dx < sx,
        0 <= dy < sy,
        0 <= dz < sz,
    ensures
        (flat_index(dx, dy, dz, sy, sz) / sz) / sy == dx,
        (flat_index(dx, dy, dz, sy, sz) / sz) % sy == dy,
        flat_index(dx, dy, dz, sy, sz) % sz == dz,
{
    let q = dx * sy + dy;
    lemma_fundamental_div_mod_converse(flat_index(dx, dy, dz, sy, sz), sz, q, dz);
    lemma_fundamental_div_mod_converse(q, sy, dx, dy);
}

/// An index below the volume splits into an offset inside the cuboid, and
/// that offset has the index it came from.
pub proof fn lemma_offset_of_index(i: int, sx: int, sy: int, sz: int)
    requires
        0 <= i < sx * sy * sz,
        0 <= sx,
        0 <= sy,
        0 <= sz,
    ensures
        0 < sy,
        0 < sz,
        0 <= (i / sz) / sy < sx,
        0 <= (i / sz) % sy < sy,
        0 <= i % sz < sz,
        flat_index((i / sz) / sy, (i / sz) % sy, i % sz, sy, sz) == i,
{
    assert(sy > 0 && sz > 0) by (nonlinear_arith)
        requires
            0 <= i < sx * sy * sz,
            0 <= sy,
            0 <= sz,
    ;
    let q = i / sz;
    assert(i == q * sz + i % sz && 0 <= i % sz < sz) by {
        vstd::arithmetic::div_mod::lemma_fundamental_div_mod(i, sz);
        vstd::arithmetic::div_mod::lemma_mod_bound(i, sz);
        assert(sz * q == q * sz) by (nonlinear_arith);
    }
    assert(0 <= q < sx * sy) by (nonlinear_arith)
        requires
            i == q * sz + i % sz,
            0 <= i % sz < sz,
            0 <= i < sx * sy * sz,
            0 < sz,
    ;
    let x = q / sy;
    assert(q == x * sy + q % sy && 0 <= q % sy < sy) by {
        vstd::arithmetic::div_mod::lemma_fundamental_div_mod(q, sy);
        vstd::arithmetic::div_mod::lemma_mod_bound(q, sy);
        assert(sy * x == x * sy) by (nonlinear_arith);
    }
    assert(0 <= x < sx) by (nonlinear_arith)
        requires
            q == x * sy + q % sy,
            0 <= q % sy < sy,
            0 <= q < sx * sy,
            0 < sy,
    ;
}

/// A cuboid of chunk positions: those from `min_chunk`, inclusive, to
/// `min_chunk + size`, exclusive, on each axis.
#[derive(Debug, Clone, Copy, PartialEq, Eq, Structural)]
pub struct ChunkRegion {
    pub min_chunk: ChunkPos,
    pub size: UVec3,
}

impl ChunkRegion {
    /// True if the exclusive maximum has coordinates that fit in `i32`.
    pub open spec fn has_max_chunk(self) -> bool {
        &&& self.min_chunk.x + self.size.x <= i32::MAX
        &&& self.min_chunk.y + self.size.y <= i32::MAX
        &&& self.min_chunk.z + self.size.z <= i32::MAX
    }

    /// True if every position of the cuboid has coordinates that fit in `i32`.
    pub open spec fn in_range(self) -> bool {
        &&& self.min_chunk.x + self.size.x <= i32::MAX + 1
        &&& self.min_chunk.y + self.size.y <= i32::MAX + 1
        &&& self.min_chunk.z + self.size.z <= i32::MAX + 1
    }

    /// The number of chunk positions in the cuboid.
    pub open spec fn spec_chunk_count(self) -> int {
        self.size.x * self.size.y * self.size.z
    }

    pub open spec fn spec_contains_chunk(self, chunk_pos: ChunkPos) -> bool {
        &&& self.min_chunk.x <= chunk_pos.x < self.min_chunk.x + self.size.x
        &&& self.min_chunk.y <= chunk_pos.y < self.min_chunk.y + self.size.y
        &&& self.min_chunk.z <= chunk_pos.z < self.min_chunk.z + self.size.z
    }

    /// True if `offset`, taken from the minimum, lies inside the cuboid.
    pub open spec fn spec_contains_offset(self, offset: ChunkPos) -> bool {
        &&& 0 <= offset.x < self.size.x
        &&& 0 <= offset.y < self.size.y
        &&& 0 <= offset.z < self.size.z
    }

    /// The index of the position at `offset` from the minimum.
    pub open spec fn spec_index_relative(self, offset: ChunkPos) -> int {
        flat_index(offset.x as int, offset.y as int, offset.z as int, self.size.y as int, self.size.z as int)
    }

    /// The index of `chunk_pos` in the canonical order.
    pub open spec fn spec_index(self, chunk_pos: ChunkPos) -> int {
        flat_index(
            chunk_pos.x - self.min_chunk.x,
            chunk_pos.y - self.min_chunk.y,
            chunk_pos.z - self.min_chunk.z,
            self.size.y as int,
            self.size.z as int,
        )
    }

    /// The position with index `i` in the canonical order.
    pub open spec fn spec_chunk_at(self, i: int) -> ChunkPos {
        ChunkPos {
            x: (self.min_chunk.x + (i / (self.size.z as int)) / (self.size.y as int)) as i32,
            y: (self.min_chunk.y + (i / (self.size.z as int)) % (self.size.y as int)) as i32,
            z: (self.min_chunk.z + i % (self.size.z as int)) as i32,
        }
    }

    /// The positions of the cuboid in the canonical order.
    pub open spec fn spec_chunks(self) -> Seq<ChunkPos> {
        Seq::new(self.spec_chunk_count() as nat, |i: int| self.spec_chunk_at(i))
    }

    /// The canonical order lists exactly the positions of the cuboid, each
    /// once, and the index of the `i`-th position is `i`.
    pub proof fn lemma_chunks(self)
        requires
            self.in_range(),
        ensures
            self.spec_chunk_count() >= 0,
            self.spec_chunks().len() == self.spec_chunk_count(),
            forall|i: int|
                0 <= i < self.spec_chunk_count() ==> self.spec_contains_chunk(
                    #[trigger] self.spec_chunks()[i],
                ) && self.spec_index(self.spec_chunks()[i]) == i,
            forall|p: ChunkPos| #[trigger]
                self.spec_contains_chunk(p) ==> 0 <= self.spec_index(p) < self.spec_chunk_count()
                    && self.spec_chunks()[self.spec_index(p)] == p,
            forall|i: int, j: int|
                0 <= i < j < self.spec_chunk_count() ==> self.spec_chunks()[i]
                    != self.spec_chunks()[j],
    {
        let sx = self.size.x as int;
        let sy = self.size.y as int;
        let sz = self.size.z as int;
        assert(sx * sy * sz >= 0) by (nonlinear_arith)
            requires
                sx >= 0,
                sy >= 0,
                sz >= 0,
        ;
        assert forall|i: int| 0 <= i < self.spec_chunk_count() implies self.spec_contains_chunk(
            #[trigger] self.spec_chunks()[i],
        ) && self.spec_index(self.spec_chunks()[i]) == i by {
            lemma_offset_of_index(i, sx, sy, sz);
        }
        assert forall|p: ChunkPos| #[trigger] self.spec_contains_chunk(p) implies 0
            <= self.spec_index(p) < self.spec_chunk_count() && self.spec_chunks()[self.spec_index(
            p,
        )] == p by {
            let dx = p.x - self.min_chunk.x;
            let dy = p.y - self.min_chunk.y;
            let dz = p.z - self.min_chunk.z;
            lemma_flat_index_bounds(dx, dy, dz, sx, sy, sz);
            lemma_flat_index_inverse(dx, dy, dz, sx, sy, sz);
        }
    }

    /// The exclusive maximum of the cuboid.
    pub fn max_chunk(&self) -> (r: ChunkPos)
        requires
            self.has_max_chunk(),
        ensures
            r.x == self.min_chunk.x + self.size.x,
            r.y == self.min_chunk.y + self.size.y,
            r.z == self.min_chunk.z + self.size.z,
    {
        ChunkPos {
            x: (self.min_chunk.x as i64 + self.size.x as i64) as i32,
            y: (self.min_chunk.y as i64 + self.size.y as i64) as i32,
            z: (self.min_chunk.z as i64 + self.size.z as i64) as i32,
        }
    }

    /// The number of chunk positions in the cuboid.
    pub fn chunk_count(&self) -> (r: usize)
        requires
            self.spec_chunk_count() <= usize::MAX,
        ensures
            r == self.spec_chunk_count(),
    {
        let sx: usize = self.size.x as usize;
        let sy: usize = self.size.y as usize;
        let sz: usize = self.size.z as usize;
        if sx == 0 || sy == 0 || sz == 0 {
            proof {
                assert(sx * sy * sz == 0) by (nonlinear_arith)
                    requires
                        sx == 0 || sy == 0 || sz == 0,
                ;
            }
            return 0;
        }
        proof {
            assert(sx * sy <= sx * sy * sz) by (nonlinear_arith)
                requires
                    sz >= 1,
                    sx >= 0,
                    sy >= 0,
            ;
        }
        sx * sy * sz
    }

    /// The number of chunk positions, or `None` if it does not fit in `usize`.
    pub fn checked_chunk_count(&self) -> (r: Option<usize>)
        ensures
            r.is_some() <==> self.spec_chunk_count() <= usize::MAX,
            r.is_some() ==> r.unwrap() == self.spec_chunk_count(),
    {
        let sx: u128 = self.size.x as u128;
        let sy: u128 = self.size.y as u128;
        let sz: u128 = self.size.z as u128;
        proof {
            assert(sx * sy <= 0xffff_ffff * 0xffff_ffff && sx * sy * sz <= 0xffff_ffff * 0xffff_ffff
                * 0xffff_ffff) by (nonlinear_arith)
                requires
                    0 <= sx <= 0xffff_ffff,
                    0 <= sy <= 0xffff_ffff,
                    0 <= sz <= 0xffff_ffff,
            ;
        }
        let count: u128 = sx * sy * sz;
        if count <= usize::MAX as u128 {
            Some(count as usize)
        } else {
            None
        }
    }

    /// True if `chunk_pos` lies in the cuboid.
    pub fn contains_chunk(&self, chunk_pos: ChunkPos) -> (r: bool)
        ensures
            r == self.spec_contains_chunk(chunk_pos),
    {
        self.min_chunk.x <= chunk_pos.x && self.min_chunk.y <= chunk_pos.y && self.min_chunk.z
            <= chunk_pos.z && (chunk_pos.x as i64) < self.min_chunk.x as i64 + self.size.x as i64
            && (chunk_pos.y as i64) < self.min_chunk.y as i64 + self.size.y as i64 && (
        chunk_pos.z as i64) < self.min_chunk.z as i64 + self.size.z as i64
    }

    /// Starts a walk over the positions of the cuboid in the canonical order.
    pub fn iter_chunks(&self) -> (r: ChunkRegionIterator)
        requires
            self.in_range(),
        ensures
            r.spec_region() == *self,
            r.spec_position() == 0,
            r.spec_valid(),
            r.spec_remaining() == self.spec_chunks(),
    {
        let current_chunk = if self.size.x == 0 || self.size.y == 0 || self.size.z == 0 {
            None
        } else {
            Some(self.min_chunk)
        };
        proof {
            let sx = self.size.x as int;
            let sy = self.size.y as int;
            let sz = self.size.z as int;
            if sx == 0 || sy == 0 || sz == 0 {
                assert(sx * sy * sz == 0) by (nonlinear_arith)
                    requires
                        sx == 0 || sy == 0 || sz == 0,
                ;
            } else {
                lemma_flat_index_bounds(0, 0, 0, sx, sy, sz);
                assert((0 * sy + 0) * sz + 0 == 0) by (nonlinear_arith);
            }
        }
        let r = ChunkRegionIterator { region: *self, current_chunk };
        proof {
            assert(r.spec_remaining() =~= self.spec_chunks());
        }
        r
    }

    /// The index of `chunk_pos` in the canonical order; `None` if it lies
    /// outside the cuboid.
    pub fn get_array_index(&self, chunk_pos: ChunkPos) -> (r: Option<usize>)
        requires
            self.spec_chunk_count() <= usize::MAX,
        ensures
            r.is_some() <==> self.spec_contains_chunk(chunk_pos),
            r.is_some() ==> r.unwrap() == self.spec_index(chunk_pos) && r.unwrap()
                < self.spec_chunk_count(),
    {
        let dx: i64 = chunk_pos.x as i64 - self.min_chunk.x as i64;
        let dy: i64 = chunk_pos.y as i64 - self.min_chunk.y as i64;
        let dz: i64 = chunk_pos.z as i64 - self.min_chunk.z as i64;
        self.index_of_offset(dx, dy, dz)
    }

    /// The index of the position at `offset` from the minimum; `None` if the
    /// offset lies outside the cuboid.
    pub fn get_array_index_relative(&self, offset: ChunkPos) -> (r: Option<usize>)
        requires
            self.spec_chunk_count() <= usize::MAX,
        ensures
            r.is_some() <==> self.spec_contains_offset(offset),
            r.is_some() ==> r.unwrap() == self.spec_index_relative(offset) && r.unwrap()
                < self.spec_chunk_count(),
    {
        self.index_of_offset(offset.x as i64, offset.y as i64, offset.z as i64)
    }

    fn index_of_offset(&self, dx: i64, dy: i64, dz: i64) -> (r: Option<usize>)
        requires
            self.spec_chunk_count() <= usize::MAX,
        ensures
            r.is_some() <==> (0 <= dx < self.size.x && 0 <= dy < self.size.y && 0 <= dz
                < self.size.z),
            r.is_some() ==> r.unwrap() == flat_index(
                dx as int,
                dy as int,
                dz as int,
                self.size.y as int,
                self.size.z as int,
            ) && r.unwrap() < self.spec_chunk_count(),
    {
        if dx < 0 || dy < 0 || dz < 0 {
            return None;
        }
        if dx >= self.size.x as i64 || dy >= self.size.y as i64 || dz >= self.size.z as i64 {
            return None;
        }
        proof {
            lemma_flat_index_bounds(
                dx as int,
                dy as int,
                dz as int,
                self.size.x as int,
                self.size.y as int,
                self.size.z as int,
            );
        }
        let x: usize = dx as usize;
        let y: usize = dy as usize;
        let z: usize = dz as usize;
        let sy: usize = self.size.y as usize;
        let sz: usize = self.size.z as usize;
        proof {
            let sx = self.size.x as int;
            assert(sx * sy <= sx * sy * sz) by (nonlinear_arith)
                requires
                    sz >= 1,
                    sx >= 0,
                    sy >= 0,
            ;
            assert(x * sy == (dx as int) * (self.size.y as int));
            assert((x * sy + y) * sz == ((dx as int) * (self.size.y as int) + dy) * (
            self.size.z as int));
        }
        Some((x * sy + y) * sz + z)
    }
}

/// A walk over the positions of a cuboid in the canonical order.
#[derive(Debug, Clone, Copy)]
pub struct ChunkRegionIterator {
    region: ChunkRegion,
    current_chunk: Option<ChunkPos>,
}

impl ChunkRegionIterator {
    /// The cuboid that is walked.
    pub closed spec fn spec_region(self) -> ChunkRegion {
        self.region
    }

    /// How many positions the walk has handed out.
    pub closed spec fn spec_position(self) -> int {
        match self.current_chunk {
            Some(p) => self.region.spec_index(p),
            None => self.region.spec_chunk_count(),
        }
    }

    /// True if the walk stands at a position of its cuboid or at the end.
    pub closed spec fn spec_valid(self) -> bool {
        &&& self.region.in_range()
        &&& match self.current_chunk {
            Some(p) => self.region.spec_contains_chunk(p),
            None => true,
        }
    }

    /// The positions that the walk has yet to hand out, in order.
    pub open spec fn spec_remaining(self) -> Seq<ChunkPos> {
        self.spec_region().spec_chunks().skip(self.spec_position())
    }

    /// Hands out the next position of the walk; `None` once every position
    /// of the cuboid has been handed out.
    pub fn next(&mut self) -> (r: Option<ChunkPos>)
        requires
            old(self).spec_valid(),
        ensures
            final(self).spec_valid(),
            final(self).spec_region() == old(self).spec_region(),
            r.is_none() <==> old(self).spec_remaining().len() == 0,
            r.is_none() ==> *final(self) == *old(self),
            r.is_some() ==> r.unwrap() == old(self).spec_remaining()[0]
                && final(self).spec_position() == old(self).spec_position() + 1
                && final(self).spec_remaining() == old(self).spec_remaining().drop_first()
                && old(self).spec_region().spec_contains_chunk(r.unwrap()),
    {
        proof {
            self.region.lemma_chunks();
        }
        let out = match self.current_chunk {
            Some(p) => p,
            None => {
                return None;
            },
        };
        let min = self.region.min_chunk;
        let size = self.region.size;
        let ghost sx = size.x as int;
        let ghost sy = size.y as int;
        let ghost sz = size.z as int;
        let ghost dx = out.x - min.x;
        let ghost dy = out.y - min.y;
        let ghost dz = out.z - min.z;
        let ghost i = flat_index(dx, dy, dz, sy, sz);
        proof {
            lemma_flat_index_bounds(dx, dy, dz, sx, sy, sz);
        }
        let next_z: i64 = out.z as i64 + 1;
        let next_y: i64 = out.y as i64 + 1;
        let next_x: i64 = out.x as i64 + 1;
        if next_z < min.z as i64 + size.z as i64 {
            self.current_chunk = Some(ChunkPos { x: out.x, y: out.y, z: next_z as i32 });
        } else if next_y < min.y as i64 + size.y as i64 {
            proof {
                assert(flat_index(dx, dy + 1, 0, sy, sz) == i + 1) by (nonlinear_arith)
                    requires
                        i == (dx * sy + dy) * sz + dz,
                        dz + 1 == sz,
                ;
            }
            self.current_chunk = Some(ChunkPos { x: out.x, y: next_y as i32, z: min.z });
        } else if next_x < min.x as i64 + size.x as i64 {
            proof {
                assert(flat_index(dx + 1, 0, 0, sy, sz) == i + 1) by (nonlinear_arith)
                    requires
                        i == (dx * sy + dy) * sz + dz,
                        dz + 1 == sz,
                        dy + 1 == sy,
                ;
            }
            self.current_chunk = Some(ChunkPos { x: next_x as i32, y: min.y, z: min.z });
        } else {
            proof {
                assert(i + 1 == sx * sy * sz) by (nonlinear_arith)
                    requires
                        i == (dx * sy + dy) * sz + dz,
                        dz + 1 == sz,
                        dy + 1 == sy,
                        dx + 1 == sx,
                ;
            }
            self.current_chunk = None;
        }
        proof {
            assert(final(self).spec_position() == i + 1);
            assert(old(self).spec_remaining()[0] == self.region.spec_chunks()[i]);
            assert(final(self).spec_remaining() =~= old(self).spec_remaining().drop_first());
        }
        Some(out)
    }
}

} // verus!
