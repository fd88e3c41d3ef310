//! The greedy merge of the visible faces of a layer into quads.
//!
//! The cells of a layer are scanned with `x` outermost. An unvisited cell
//! that shows a face starts a quad, which grows along `y` as far as the
//! cells join it, and then along `x` as long as the whole strip beside it
//! joins. A cell joins a quad if it is not visited, shows a face that can
//! merge with that of the quad, is not hidden, and has the light of the
//! quad at its corners.

use vstd::prelude::*;
use crate::meshing::buffers::{FaceMeshData, MeshBuffersView};
use crate::meshing::layer::{layer_view, FaceOcclusionData, LayerView};
use crate::meshing::{
    spec_block_pos_for_layer, BlockFaceUv, BlockModelUv, ChunkMeshData, FaceDirection,
};
use crate::types::UVec2;

verus! {

/// A rectangle of cells of one layer that show the same face with the same
/// light and are drawn as one face.
#[derive(Debug, Clone, Copy, PartialEq, Eq, Structural)]
pub struct Quad {
    /// The first cell of the rectangle.
    pub x: i32,
    pub y: i32,
    /// The number of cells along each side.
    pub x_len: i32,
    pub y_len: i32,
    /// The face that every cell of the rectangle shows.
    pub face: BlockFaceUv,
    /// The occlusion levels at the corners of every cell of the rectangle.
    pub occlusion: FaceOcclusionData,
}

impl Quad {
    /// The fully lit quad of face `face` that covers a whole layer.
    pub open spec fn spec_whole_layer(face: BlockFaceUv) -> Quad {
        Quad { x: 0, y: 0, x_len: 32, y_len: 32, face, occlusion: FaceOcclusionData::spec_lit() }
    }
}

/// The visited flags `visited` with the cells of the rectangle of `x_len` by
/// `y_len` cells at `(x, y)` marked.
#[verifier::opaque]
pub open spec fn mark_rect(visited: Seq<bool>, x: int, y: int, x_len: int, y_len: int) -> Seq<bool> {
    Seq::new(
        visited.len(),
        |i: int| visited[i] || (x <= i / 32 < x + x_len && y <= i % 32 < y + y_len),
    )
}

/// [`mark_rect`] with the first `k` cells of the strip beside the rectangle
/// marked as well.
#[verifier::opaque]
pub open spec fn mark_rect_and_strip(
    visited: Seq<bool>,
    x: int,
    y: int,
    x_len: int,
    y_len: int,
    k: int,
) -> Seq<bool> {
    Seq::new(
        visited.len(),
        |i: int|
            visited[i] || (x <= i / 32 < x + x_len && y <= i % 32 < y + y_len) || (i / 32 == x
                + x_len && y <= i % 32 < y + k),
    )
}

/// Marking keeps the number of flags, and leaves the flag of a cell outside
/// the rectangle as it was.
pub proof fn lemma_mark_rect_outside(
    visited: Seq<bool>,
    x: int,
    y: int,
    x_len: int,
    y_len: int,
    cx: int,
    cy: int,
)
    requires
        visited.len() == 1024,
        0 <= cx < 32,
        0 <= cy < 32,
        !(x <= cx < x + x_len && y <= cy < y + y_len),
    ensures
        mark_rect(visited, x, y, x_len, y_len).len() == 1024,
        mark_rect(visited, x, y, x_len, y_len)[cx * 32 + cy] == visited[cx * 32 + cy],
{
    reveal(mark_rect);
}

/// Marking a rectangle keeps the number of flags.
pub proof fn lemma_mark_rect_len(visited: Seq<bool>, x: int, y: int, x_len: int, y_len: int)
    ensures
        mark_rect(visited, x, y, x_len, y_len).len() == visited.len(),
{
    reveal(mark_rect);
}

/// Marking the first cell of a quad marks the rectangle of that one cell.
pub proof fn lemma_mark_rect_first(visited: Seq<bool>, x: int, y: int)
    requires
        visited.len() == 1024,
        0 <= x < 32,
        0 <= y < 32,
    ensures
        visited.update(x * 32 + y, true) == mark_rect(visited, x, y, 1, 1),
{
    reveal(mark_rect);
    assert(visited.update(x * 32 + y, true) =~= mark_rect(visited, x, y, 1, 1));
}

/// Marking the cell behind a column of `y_len` marked cells gives a column
/// of one cell more.
pub proof fn lemma_mark_rect_grow_y(visited: Seq<bool>, x: int, y: int, y_len: int)
    requires
        visited.len() == 1024,
        0 <= x < 32,
        0 <= y,
        1 <= y_len,
        y + y_len < 32,
    ensures
        mark_rect(visited, x, y, 1, y_len).update(x * 32 + y + y_len, true) == mark_rect(
            visited,
            x,
            y,
            1,
            y_len + 1,
        ),
{
    reveal(mark_rect);
    assert(mark_rect(visited, x, y, 1, y_len).update(x * 32 + y + y_len, true) =~= mark_rect(
        visited,
        x,
        y,
        1,
        y_len + 1,
    ));
}

/// A rectangle with none of the strip beside it is the rectangle; with the
/// whole strip it is the rectangle that is one column wider; and marking
/// the next cell of the strip marks one cell more of it.
pub proof fn lemma_mark_strip(visited: Seq<bool>, x: int, y: int, x_len: int, y_len: int, k: int)
    requires
        visited.len() == 1024,
        0 <= x,
        0 <= y,
        1 <= x_len,
        1 <= y_len,
        x + x_len < 32,
        y + y_len <= 32,
        0 <= k < y_len,
    ensures
        mark_rect_and_strip(visited, x, y, x_len, y_len, 0) == mark_rect(visited, x, y, x_len, y_len),
        mark_rect_and_strip(visited, x, y, x_len, y_len, y_len) == mark_rect(
            visited,
            x,
            y,
            x_len + 1,
            y_len,
        ),
        mark_rect_and_strip(visited, x, y, x_len, y_len, k).update(
            (x + x_len) * 32 + y + k,
            true,
        ) == mark_rect_and_strip(visited, x, y, x_len, y_len, k + 1),
        mark_rect_and_strip(visited, x, y, x_len, y_len, k).len() == 1024,
{
    reveal(mark_rect);
    reveal(mark_rect_and_strip);
    assert(mark_rect_and_strip(visited, x, y, x_len, y_len, 0) =~= mark_rect(
        visited,
        x,
        y,
        x_len,
        y_len,
    ));
    assert(mark_rect_and_strip(visited, x, y, x_len, y_len, y_len) =~= mark_rect(
        visited,
        x,
        y,
        x_len + 1,
        y_len,
    ));
    assert(mark_rect_and_strip(visited, x, y, x_len, y_len, k).update(
        (x + x_len) * 32 + y + k,
        true,
    ) =~= mark_rect_and_strip(visited, x, y, x_len, y_len, k + 1));
}

/// No flags at all: the state of the visited map when a layer is begun.
pub open spec fn none_visited() -> Seq<bool> {
    Seq::new(1024, |i: int| false)
}

impl LayerView {
    /// True if cell `(x, y)` can become part of a quad with face `base` and
    /// corner light `occlusion`.
    pub open spec fn joins(
        self,
        visited: Seq<bool>,
        base: BlockFaceUv,
        occlusion: FaceOcclusionData,
        x: int,
        y: int,
    ) -> bool {
        &&& !visited[x * 32 + y]
        &&& base.spec_can_merge_with((self.faces)(x, y))
        &&& !(self.occluded)(x, y)
        &&& self.occlusion_data(x, y) == occlusion
    }

    /// How many cells in a row, from `(x, y)` on along `y`, join the quad.
    pub open spec fn y_extra(
        self,
        visited: Seq<bool>,
        base: BlockFaceUv,
        occlusion: FaceOcclusionData,
        x: int,
        y: int,
    ) -> nat
        decreases 32 - y,
    {
        if y >= 32 || !self.joins(visited, base, occlusion, x, y) {
            0
        } else {
            1 + self.y_extra(visited, base, occlusion, x, y + 1)
        }
    }

    /// The first `j` from `k` on for which cell `(x, y + j)` does not join
    /// the quad; `y_len` if all of them up to there join.
    pub open spec fn strip_stop(
        self,
        visited: Seq<bool>,
        base: BlockFaceUv,
        occlusion: FaceOcclusionData,
        x: int,
        y: int,
        y_len: int,
        k: int,
    ) -> int
        decreases y_len - k,
    {
        if k >= y_len || !self.joins(visited, base, occlusion, x, y + k) {
            k
        } else {
            self.strip_stop(visited, base, occlusion, x, y, y_len, k + 1)
        }
    }

    /// How many strips of `y_len` cells in a row, from the one at `x` on,
    /// join the quad with every cell.
    pub open spec fn x_extra(
        self,
        visited: Seq<bool>,
        base: BlockFaceUv,
        occlusion: FaceOcclusionData,
        x: int,
        y: int,
        y_len: int,
    ) -> nat
        decreases 32 - x,
    {
        if x >= 32 || self.strip_stop(visited, base, occlusion, x, y, y_len, 0) < y_len {
            0
        } else {
            1 + self.x_extra(visited, base, occlusion, x + 1, y, y_len)
        }
    }

    /// The quad that starts at the unvisited cell `(x, y)`.
    pub open spec fn quad_at(self, visited: Seq<bool>, x: int, y: int) -> Quad {
        let face = (self.faces)(x, y);
        let occlusion = self.occlusion_data(x, y);
        let y_len = 1 + self.y_extra(visited, face, occlusion, x, y + 1) as int;
        let x_len = 1 + self.x_extra(visited, face, occlusion, x + 1, y, y_len) as int;
        Quad {
            x: x as i32,
            y: y as i32,
            x_len: x_len as i32,
            y_len: y_len as i32,
            face,
            occlusion,
        }
    }

    /// The visited flags once quad `q` has been merged: its cells are
    /// marked, and so is the cell at which the strip beside it failed, if
    /// that cell was unvisited and hidden, since it will never show a face.
    pub open spec fn visited_after(self, visited: Seq<bool>, q: Quad) -> Seq<bool> {
        let marked = mark_rect(visited, q.x as int, q.y as int, q.x_len as int, q.y_len as int);
        let x_pos = q.x + q.x_len;
        let k = self.strip_stop(visited, q.face, q.occlusion, x_pos, q.y as int, q.y_len as int, 0);
        if x_pos < 32 && k < q.y_len && !visited[x_pos * 32 + q.y + k] && (self.occluded)(
            x_pos,
            q.y + k,
        ) {
            marked.update(x_pos * 32 + q.y + k, true)
        } else {
            marked
        }
    }

    /// The quads of the layer from cell `(x, y)` on, in the order in which
    /// the scan finds them, when `visited` holds the cells dealt with so far.
    /// After a quad the scan goes on behind its first column; a quad never
    /// reaches beyond the layer, so the bound on that step changes nothing.
    #[verifier::opaque]
    pub open spec fn scan(self, visited: Seq<bool>, x: int, y: int) -> Seq<Quad>
        decreases 32 - x, 32 - y,
    {
        if x >= 32 {
            Seq::empty()
        } else if y >= 32 {
            self.scan(visited, x + 1, 0)
        } else if visited[x * 32 + y] {
            self.scan(visited, x, y + 1)
        } else if !self.shows_face(x, y) {
            self.scan(visited.update(x * 32 + y, true), x, y + 1)
        } else {
            let q = self.quad_at(visited, x, y);
            let next_y = y + 1 + self.y_extra(visited, q.face, q.occlusion, x, y + 1);
            seq![q] + self.scan(
                self.visited_after(visited, q),
                x,
                if next_y <= 32 {
                    next_y
                } else {
                    32
                },
            )
        }
    }

    /// The quads of the whole layer.
    pub open spec fn quads(self) -> Seq<Quad> {
        self.scan(none_visited(), 0, 0)
    }

    /// A run along `y` ends inside the layer.
    pub proof fn lemma_y_extra_bound(
        self,
        visited: Seq<bool>,
        base: BlockFaceUv,
        occlusion: FaceOcclusionData,
        x: int,
        y: int,
    )
        requires
            y <= 32,
        ensures
            y + self.y_extra(visited, base, occlusion, x, y) <= 32,
        decreases 32 - y,
    {
        if y < 32 && self.joins(visited, base, occlusion, x, y) {
            self.lemma_y_extra_bound(visited, base, occlusion, x, y + 1);
        }
    }

    /// A run along `x` ends inside the layer.
    pub proof fn lemma_x_extra_bound(
        self,
        visited: Seq<bool>,
        base: BlockFaceUv,
        occlusion: FaceOcclusionData,
        x: int,
        y: int,
        y_len: int,
    )
        requires
            x <= 32,
        ensures
            x + self.x_extra(visited, base, occlusion, x, y, y_len) <= 32,
        decreases 32 - x,
    {
        if x < 32 && self.strip_stop(visited, base, occlusion, x, y, y_len, 0) >= y_len {
            self.lemma_x_extra_bound(visited, base, occlusion, x + 1, y, y_len);
        }
    }

    /// How the scan goes on from a cell: past the end of the layer it finds
    /// nothing more; at the end of a row it turns to the next row; a visited
    /// cell it passes over; a cell without a face to show it marks and
    /// passes over.
    pub proof fn lemma_scan_step(self, visited: Seq<bool>, x: int, y: int)
        ensures
            x >= 32 ==> self.scan(visited, x, y) == Seq::<Quad>::empty(),
            x < 32 && y >= 32 ==> self.scan(visited, x, y) == self.scan(visited, x + 1, 0),
            x < 32 && y < 32 && visited[x * 32 + y] ==> self.scan(visited, x, y) == self.scan(
                visited,
                x,
                y + 1,
            ),
            x < 32 && y < 32 && !visited[x * 32 + y] && !self.shows_face(x, y) ==> self.scan(
                visited,
                x,
                y,
            ) == self.scan(visited.update(x * 32 + y, true), x, y + 1),
    {
        reveal(LayerView::scan);
    }

    /// At an unvisited cell that shows a face the scan finds the quad that
    /// starts there, which lies inside the layer, and goes on behind the
    /// first column of that quad.
    pub proof fn lemma_scan_quad(self, visited: Seq<bool>, x: int, y: int)
        requires
            0 <= x < 32,
            0 <= y < 32,
            !visited[x * 32 + y],
            self.shows_face(x, y),
        ensures
            self.scan(visited, x, y) == seq![self.quad_at(visited, x, y)] + self.scan(
                self.visited_after(visited, self.quad_at(visited, x, y)),
                x,
                y + self.quad_at(visited, x, y).y_len,
            ),
            self.quad_at(visited, x, y).x == x,
            self.quad_at(visited, x, y).y == y,
            1 <= self.quad_at(visited, x, y).x_len,
            1 <= self.quad_at(visited, x, y).y_len,
            x + self.quad_at(visited, x, y).x_len <= 32,
            y + self.quad_at(visited, x, y).y_len <= 32,
            self.quad_at(visited, x, y).face == (self.faces)(x, y),
            self.quad_at(visited, x, y).occlusion == self.occlusion_data(x, y),
            self.quad_at(visited, x, y).y_len == 1 + self.y_extra(
                visited,
                (self.faces)(x, y),
                self.occlusion_data(x, y),
                x,
                y + 1,
            ),
            self.quad_at(visited, x, y).x_len == 1 + self.x_extra(
                visited,
                (self.faces)(x, y),
                self.occlusion_data(x, y),
                x + 1,
                y,
                self.quad_at(visited, x, y).y_len as int,
            ),
    {
        reveal(LayerView::scan);
        let face = (self.faces)(x, y);
        let occlusion = self.occlusion_data(x, y);
        self.lemma_y_extra_bound(visited, face, occlusion, x, y + 1);
        let y_len = 1 + self.y_extra(visited, face, occlusion, x, y + 1) as int;
        self.lemma_x_extra_bound(visited, face, occlusion, x + 1, y, y_len);
    }

    /// In a layer in which no cell shows a face the scan finds no quad.
    pub proof fn lemma_scan_nothing_shown(self, visited: Seq<bool>, x: int, y: int)
        requires
            0 <= x,
            0 <= y,
            forall|cx: int, cy: int|
                0 <= cx < 32 && 0 <= cy < 32 ==> !#[trigger] self.shows_face(cx, cy),
        ensures
            self.scan(visited, x, y) == Seq::<Quad>::empty(),
        decreases 32 - x, 32 - y,
    {
        reveal(LayerView::scan);
        if x >= 32 {
        } else if y >= 32 {
            self.lemma_scan_nothing_shown(visited, x + 1, 0);
        } else if visited[x * 32 + y] {
            self.lemma_scan_nothing_shown(visited, x, y + 1);
        } else {
            assert(!self.shows_face(x, y));
            self.lemma_scan_nothing_shown(visited.update(x * 32 + y, true), x, y + 1);
        }
    }

    /// Once every cell is visited the scan finds no quad.
    pub proof fn lemma_scan_all_visited(self, visited: Seq<bool>, x: int, y: int)
        requires
            0 <= x,
            0 <= y,
            forall|i: int| 0 <= i < 1024 ==> #[trigger] visited[i],
        ensures
            self.scan(visited, x, y) == Seq::<Quad>::empty(),
        decreases 32 - x, 32 - y,
    {
        reveal(LayerView::scan);
        if x >= 32 {
        } else if y >= 32 {
            self.lemma_scan_all_visited(visited, x + 1, 0);
        } else {
            assert(visited[x * 32 + y]);
            self.lemma_scan_all_visited(visited, x, y + 1);
        }
    }

    /// True if every cell of the layer shows `face` and no cell in or
    /// around the layer is hidden.
    pub open spec fn uniform(self, face: BlockFaceUv) -> bool {
        &&& face.spec_is_visible()
        &&& forall|cx: int, cy: int|
            0 <= cx < 32 && 0 <= cy < 32 ==> #[trigger] (self.faces)(cx, cy) == face
        &&& forall|cx: int, cy: int|
            -1 <= cx <= 32 && -1 <= cy <= 32 ==> !#[trigger] (self.occluded)(cx, cy)
    }

    /// In a uniform layer every unvisited cell joins a quad of the face
    /// of the layer that is fully lit.
    proof fn lemma_uniform_joins(self, face: BlockFaceUv, visited: Seq<bool>, x: int, y: int)
        requires
            self.uniform(face),
            0 <= x < 32,
            0 <= y < 32,
            !visited[x * 32 + y],
        ensures
            self.occlusion_data(x, y) == FaceOcclusionData::spec_lit(),
            self.joins(visited, face, FaceOcclusionData::spec_lit(), x, y),
    {
        assert((self.faces)(x, y) == face);
        assert(!(self.occluded)(x, y));
        self.lemma_unoccluded_face_is_lit(x, y);
    }

    /// In a uniform layer a run along `y` over unvisited cells reaches the
    /// end of the layer.
    proof fn lemma_uniform_y_extra(self, face: BlockFaceUv, x: int, y: int)
        requires
            self.uniform(face),
            0 <= x < 32,
            0 <= y <= 32,
        ensures
            self.y_extra(none_visited(), face, FaceOcclusionData::spec_lit(), x, y) == 32 - y,
        decreases 32 - y,
    {
        if y < 32 {
            self.lemma_uniform_joins(face, none_visited(), x, y);
            self.lemma_uniform_y_extra(face, x, y + 1);
        }
    }

    /// In a uniform layer every cell of an unvisited strip joins.
    proof fn lemma_uniform_strip(self, face: BlockFaceUv, x: int, k: int)
        requires
            self.uniform(face),
            0 <= x < 32,
            0 <= k <= 32,
        ensures
            self.strip_stop(none_visited(), face, FaceOcclusionData::spec_lit(), x, 0, 32, k) == 32,
        decreases 32 - k,
    {
        if k < 32 {
            self.lemma_uniform_joins(face, none_visited(), x, k);
            self.lemma_uniform_strip(face, x, k + 1);
        }
    }

    /// In a uniform layer a run along `x` over unvisited strips reaches the
    /// end of the layer.
    proof fn lemma_uniform_x_extra(self, face: BlockFaceUv, x: int)
        requires
            self.uniform(face),
            0 <= x <= 32,
        ensures
            self.x_extra(none_visited(), face, FaceOcclusionData::spec_lit(), x, 0, 32) == 32 - x,
        decreases 32 - x,
    {
        if x < 32 {
            self.lemma_uniform_strip(face, x, 0);
            self.lemma_uniform_x_extra(face, x + 1);
        }
    }

    /// A uniform layer is meshed into one quad that covers all of it and
    /// is fully lit.
    pub proof fn lemma_uniform_layer(self, face: BlockFaceUv)
        requires
            self.uniform(face),
        ensures
            self.quads() == seq![Quad::spec_whole_layer(face)],
    {
        let v = none_visited();
        let lit = FaceOcclusionData::spec_lit();
        self.lemma_uniform_joins(face, v, 0, 0);
        self.lemma_uniform_y_extra(face, 0, 1);
        self.lemma_uniform_x_extra(face, 1);
        let q = self.quad_at(v, 0, 0);
        assert(q == Quad::spec_whole_layer(face));
        self.lemma_scan_quad(v, 0, 0);
        let after = self.visited_after(v, q);
        assert forall|i: int| 0 <= i < 1024 implies #[trigger] after[i] by {
            reveal(mark_rect);
        }
        self.lemma_scan_all_visited(after, 0, 32);
        assert(seq![q] + Seq::<Quad>::empty() =~= seq![q]);
    }

    /// The scan finds at most one quad for each cell that it has yet to pass.
    pub proof fn lemma_scan_len(self, visited: Seq<bool>, x: int, y: int)
        requires
            0 <= x <= 32,
            0 <= y <= 32,
        ensures
            self.scan(visited, x, y).len() <= (32 - x) * 32 - y || x == 32,
            x == 32 ==> self.scan(visited, x, y).len() == 0,
        decreases 32 - x, 32 - y,
    {
        reveal(LayerView::scan);
        if x >= 32 {
        } else if y >= 32 {
            self.lemma_scan_len(visited, x + 1, 0);
        } else if visited[x * 32 + y] {
            self.lemma_scan_len(visited, x, y + 1);
        } else if !self.shows_face(x, y) {
            self.lemma_scan_len(visited.update(x * 32 + y, true), x, y + 1);
        } else {
            let q = self.quad_at(visited, x, y);
            self.lemma_y_extra_bound(visited, q.face, q.occlusion, x, y + 1);
            self.lemma_scan_len(
                self.visited_after(visited, q),
                x,
                y + 1 + self.y_extra(visited, q.face, q.occlusion, x, y + 1),
            );
            assert(self.scan(visited, x, y).len() == 1 + self.scan(
                self.visited_after(visited, q),
                x,
                y + 1 + self.y_extra(visited, q.face, q.occlusion, x, y + 1),
            ).len());
        }
    }
}

/// The vertex data of quad `q` of layer `layer`, seen in direction `face`.
pub open spec fn quad_mesh_data(q: Quad, face: FaceDirection, layer: int) -> FaceMeshData {
    FaceMeshData::spec_new(
        q.face.face_type->Full_0,
        q.face.rotation,
        spec_block_pos_for_layer(face, layer, q.x as int, q.y as int),
        UVec2 { x: q.x_len as u32, y: q.y_len as u32 },
        face,
        q.occlusion,
    )
}

/// The buffers `buffers` with the vertex data of each quad of `quads`
/// appended in order.
pub open spec fn insert_quads(
    buffers: MeshBuffersView,
    quads: Seq<Quad>,
    face: FaceDirection,
    layer: int,
) -> MeshBuffersView
    decreases quads.len(),
{
    if quads.len() == 0 {
        buffers
    } else {
        insert_quads(buffers, quads.drop_last(), face, layer).insert(
            quad_mesh_data(quads.last(), face, layer),
        )
    }
}

/// Appending one more quad appends its vertex data.
pub proof fn lemma_insert_quads_push(
    buffers: MeshBuffersView,
    quads: Seq<Quad>,
    q: Quad,
    face: FaceDirection,
    layer: int,
)
    ensures
        insert_quads(buffers, quads.push(q), face, layer) == insert_quads(
            buffers,
            quads,
            face,
            layer,
        ).insert(quad_mesh_data(q, face, layer)),
{
    assert(quads.push(q).drop_last() =~= quads);
}

/// Appending quads adds four corners and six triangle corners for each.
pub proof fn lemma_insert_quads_len(
    buffers: MeshBuffersView,
    quads: Seq<Quad>,
    face: FaceDirection,
    layer: int,
)
    ensures
        insert_quads(buffers, quads, face, layer).positions.len() == buffers.positions.len() + 4
            * quads.len(),
        insert_quads(buffers, quads, face, layer).indices.len() == buffers.indices.len() + 6
            * quads.len(),
    decreases quads.len(),
{
    if quads.len() > 0 {
        lemma_insert_quads_len(buffers, quads.drop_last(), face, layer);
    }
}

/// The quads of layer `layer` of the middle chunk of `blocks`, seen in
/// direction `face`.
pub open spec fn layer_quads(
    blocks: ChunkMeshData,
    models: Seq<BlockModelUv>,
    face: FaceDirection,
    layer: int,
) -> Seq<Quad> {
    layer_view(blocks, models, face, layer).quads()
}

} // verus!
