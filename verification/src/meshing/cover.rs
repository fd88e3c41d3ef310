//! What the quads of a layer cover: every cell that shows a face lies in
//! exactly one quad, and a quad holds only cells that show a face which
//! merges with the face and the light of the quad.

use vstd::prelude::*;
use crate::meshing::greedy::{layer_quads, mark_rect, none_visited, Quad};
use crate::meshing::layer::{layer_view, FaceOcclusionData, LayerView};
use crate::meshing::{BlockFaceUv, BlockModelUv, ChunkMeshData, FaceDirection};

verus! {

impl Quad {
    /// True if cell `(cx, cy)` lies in the rectangle of this quad.
    pub open spec fn covers(self, cx: int, cy: int) -> bool {
        self.x <= cx < self.x + self.x_len && self.y <= cy < self.y + self.y_len
    }

    /// True if the rectangle of this quad is not empty and lies inside the
    /// layer.
    pub open spec fn inside_layer(self) -> bool {
        &&& 0 <= self.x
        &&& 0 <= self.y
        &&& 1 <= self.x_len
        &&& 1 <= self.y_len
        &&& self.x + self.x_len <= 32
        &&& self.y + self.y_len <= 32
    }
}

impl LayerView {
    /// True if cell `(cx, cy)` may be part of quad `q`: it shows a face, the
    /// face merges with that of the quad, and its corners have the light of
    /// the quad.
    pub open spec fn fits_quad(self, q: Quad, cx: int, cy: int) -> bool {
        &&& self.shows_face(cx, cy)
        &&& q.face.spec_can_merge_with((self.faces)(cx, cy))
        &&& self.occlusion_data(cx, cy) == q.occlusion
    }

    /// True if `quads` cover what `visited` has left of the layer: the
    /// quads lie inside the layer, hold only unvisited cells that fit them,
    /// no two of them share a cell, and every unvisited cell that shows a
    /// face lies in one of them.
    pub open spec fn covered(self, quads: Seq<Quad>, visited: Seq<bool>) -> bool {
        &&& forall|i: int| 0 <= i < quads.len() ==> (#[trigger] quads[i]).inside_layer()
        &&& forall|i: int, cx: int, cy: int|
            0 <= i < quads.len() && #[trigger] quads[i].covers(cx, cy) ==> !visited[cx * 32 + cy]
                && self.fits_quad(quads[i], cx, cy)
        &&& forall|i: int, j: int, cx: int, cy: int|
            0 <= i < j < quads.len() && #[trigger] quads[i].covers(cx, cy) ==> !#[trigger] quads[j].covers(
                cx,
                cy,
            )
        &&& forall|cx: int, cy: int|
            0 <= cx < 32 && 0 <= cy < 32 && !visited[cx * 32 + cy] && #[trigger] self.shows_face(
                cx,
                cy,
            ) ==> exists|i: int| 0 <= i < quads.len() && #[trigger] quads[i].covers(cx, cy)
    }

    /// Every cell of a run along `y` joins the quad.
    proof fn lemma_y_run_joins(
        self,
        visited: Seq<bool>,
        base: BlockFaceUv,
        occlusion: FaceOcclusionData,
        x: int,
        y: int,
        cy: int,
    )
        requires
            y <= cy < y + self.y_extra(visited, base, occlusion, x, y),
        ensures
            self.joins(visited, base, occlusion, x, cy),
        decreases 32 - y,
    {
        if y < 32 && self.joins(visited, base, occlusion, x, y) {
            if cy > y {
                self.lemma_y_run_joins(visited, base, occlusion, x, y + 1, cy);
            }
        }
    }

    /// A strip stops no earlier than where the search began and no later
    /// than at its end, and every cell before the stop joins the quad.
    proof fn lemma_strip_stop(
        self,
        visited: Seq<bool>,
        base: BlockFaceUv,
        occlusion: FaceOcclusionData,
        x: int,
        y: int,
        y_len: int,
        k: int,
        j: int,
    )
        requires
            k <= y_len,
        ensures
            k <= self.strip_stop(visited, base, occlusion, x, y, y_len, k) <= y_len,
            k <= j < self.strip_stop(visited, base, occlusion, x, y, y_len, k) ==> self.joins(
                visited,
                base,
                occlusion,
                x,
                y + j,
            ),
        decreases y_len - k,
    {
        if k < y_len && self.joins(visited, base, occlusion, x, y + k) {
            self.lemma_strip_stop(visited, base, occlusion, x, y, y_len, k + 1, j);
        }
    }

    /// Every strip of a run along `x` joins the quad with all its cells.
    proof fn lemma_x_run_joins(
        self,
        visited: Seq<bool>,
        base: BlockFaceUv,
        occlusion: FaceOcclusionData,
        x: int,
        y: int,
        y_len: int,
        cx: int,
        j: int,
    )
        requires
            0 <= y_len,
            x <= cx < x + self.x_extra(visited, base, occlusion, x, y, y_len),
            0 <= j < y_len,
        ensures
            self.joins(visited, base, occlusion, cx, y + j),
        decreases 32 - x,
    {
        if x < 32 && self.strip_stop(visited, base, occlusion, x, y, y_len, 0) >= y_len {
            if cx > x {
                self.lemma_x_run_joins(visited, base, occlusion, x + 1, y, y_len, cx, j);
            } else {
                self.lemma_strip_stop(visited, base, occlusion, x, y, y_len, 0, j);
            }
        }
    }

    /// The quad that starts at an unvisited cell that shows a face holds
    /// only unvisited cells that fit it.
    proof fn lemma_quad_cells(self, visited: Seq<bool>, x: int, y: int, cx: int, cy: int)
        requires
            0 <= x < 32,
            0 <= y < 32,
            !visited[x * 32 + y],
            self.shows_face(x, y),
            self.quad_at(visited, x, y).covers(cx, cy),
        ensures
            !visited[cx * 32 + cy],
            self.fits_quad(self.quad_at(visited, x, y), cx, cy),
    {
        let q = self.quad_at(visited, x, y);
        self.lemma_scan_quad(visited, x, y);
        let face = (self.faces)(x, y);
        let occlusion = self.occlusion_data(x, y);
        if cx == x {
            if cy > y {
                self.lemma_y_run_joins(visited, face, occlusion, x, y + 1, cy);
            }
        } else {
            self.lemma_x_run_joins(visited, face, occlusion, x + 1, y, q.y_len as int, cx, cy - y);
        }
    }

    /// What is visited once a quad has been merged: what was visited, the
    /// cells of the quad, and at most one more cell, which is hidden.
    proof fn lemma_visited_after(self, visited: Seq<bool>, q: Quad, cx: int, cy: int)
        requires
            visited.len() == 1024,
            q.inside_layer(),
            0 <= cx < 32,
            0 <= cy < 32,
        ensures
            self.visited_after(visited, q).len() == 1024,
            visited[cx * 32 + cy] ==> self.visited_after(visited, q)[cx * 32 + cy],
            q.covers(cx, cy) ==> self.visited_after(visited, q)[cx * 32 + cy],
            self.visited_after(visited, q)[cx * 32 + cy] && !visited[cx * 32 + cy] && !q.covers(
                cx,
                cy,
            ) ==> (self.occluded)(cx, cy),
    {
        reveal(mark_rect);
        self.lemma_strip_stop(
            visited,
            q.face,
            q.occlusion,
            q.x + q.x_len,
            q.y as int,
            q.y_len as int,
            0,
            0,
        );
    }

    /// The scan covers what it has yet to pass: if every cell before
    /// `(x, y)` is visited, the quads that it finds from there on cover
    /// what `visited` has left of the layer.
    pub proof fn lemma_scan_cover(self, visited: Seq<bool>, x: int, y: int)
        requires
            visited.len() == 1024,
            0 <= x <= 32,
            0 <= y <= 32,
            forall|cx: int, cy: int|
                0 <= cx < 32 && 0 <= cy < 32 && (cx < x || (cx == x && cy < y)) ==> #[trigger] visited[cx
                    * 32 + cy],
        ensures
            self.covered(self.scan(visited, x, y), visited),
        decreases 32 - x, 32 - y, 1int,
    {
        self.lemma_scan_step(visited, x, y);
        let quads = self.scan(visited, x, y);
        if x >= 32 {
            assert(self.covered(quads, visited)) by {
                assert forall|cx: int, cy: int|
                    0 <= cx < 32 && 0 <= cy < 32 && !visited[cx * 32 + cy] && #[trigger] self.shows_face(
                        cx,
                        cy,
                    ) implies exists|i: int| 0 <= i < quads.len() && #[trigger] quads[i].covers(cx, cy) by {
                    assert(visited[cx * 32 + cy]);
                }
            }
        } else if y >= 32 {
            assert forall|cx: int, cy: int|
                0 <= cx < 32 && 0 <= cy < 32 && (cx < x + 1 || (cx == x + 1 && cy < 0)) implies #[trigger] visited[cx
                * 32 + cy] by {
                assert(cx < x || (cx == x && cy < y));
            }
            self.lemma_scan_cover(visited, x + 1, 0);
        } else if visited[x * 32 + y] {
            assert forall|cx: int, cy: int|
                0 <= cx < 32 && 0 <= cy < 32 && (cx < x || (cx == x && cy < y + 1)) implies #[trigger] visited[cx
                * 32 + cy] by {
                if !(cx < x || (cx == x && cy < y)) {
                    assert(cx * 32 + cy == x * 32 + y);
                }
            }
            self.lemma_scan_cover(visited, x, y + 1);
        } else if !self.shows_face(x, y) {
            let marked = visited.update(x * 32 + y, true);
            assert forall|cx: int, cy: int|
                0 <= cx < 32 && 0 <= cy < 32 && (cx < x || (cx == x && cy < y + 1)) implies #[trigger] marked[cx
                * 32 + cy] by {
                if cx < x || (cx == x && cy < y) {
                    assert(visited[cx * 32 + cy]);
                }
            }
            self.lemma_scan_cover(marked, x, y + 1);
            self.lemma_covered_less_visited(quads, marked, visited, x, y);
        } else {
            self.lemma_scan_cover_quad(visited, x, y);
        }
    }

    /// Quads that cover what is left of a layer once one more cell without
    /// a face is visited cover what was left before.
    proof fn lemma_covered_less_visited(
        self,
        quads: Seq<Quad>,
        marked: Seq<bool>,
        visited: Seq<bool>,
        x: int,
        y: int,
    )
        requires
            visited.len() == 1024,
            0 <= x < 32,
            0 <= y < 32,
            marked == visited.update(x * 32 + y, true),
            !self.shows_face(x, y),
            self.covered(quads, marked),
        ensures
            self.covered(quads, visited),
    {
        assert forall|i: int, cx: int, cy: int|
            0 <= i < quads.len() && #[trigger] quads[i].covers(cx, cy) implies !visited[cx * 32 + cy]
            && self.fits_quad(quads[i], cx, cy) by {
            assert(quads[i].inside_layer());
            assert(!marked[cx * 32 + cy]);
        }
        assert forall|cx: int, cy: int|
            0 <= cx < 32 && 0 <= cy < 32 && !visited[cx * 32 + cy] && #[trigger] self.shows_face(
                cx,
                cy,
            ) implies exists|i: int| 0 <= i < quads.len() && #[trigger] quads[i].covers(cx, cy) by {
            assert(cx != x || cy != y);
            assert(cx * 32 + cy != x * 32 + y);
            assert(!marked[cx * 32 + cy]);
        }
    }

    /// The step of [`LayerView::lemma_scan_cover`] at a cell that starts a
    /// quad.
    proof fn lemma_scan_cover_quad(self, visited: Seq<bool>, x: int, y: int)
        requires
            visited.len() == 1024,
            0 <= x < 32,
            0 <= y < 32,
            !visited[x * 32 + y],
            self.shows_face(x, y),
            forall|cx: int, cy: int|
                0 <= cx < 32 && 0 <= cy < 32 && (cx < x || (cx == x && cy < y)) ==> #[trigger] visited[cx
                    * 32 + cy],
        ensures
            self.covered(self.scan(visited, x, y), visited),
        decreases 32 - x, 32 - y, 0int,
    {
        let q = self.quad_at(visited, x, y);
        self.lemma_scan_quad(visited, x, y);
        let after = self.visited_after(visited, q);
        let next_y = y + q.y_len;
        let rest = self.scan(after, x, next_y);
        let quads = self.scan(visited, x, y);
        assert(q.inside_layer());
        self.lemma_visited_after(visited, q, 0, 0);
        assert forall|cx: int, cy: int|
            0 <= cx < 32 && 0 <= cy < 32 && (cx < x || (cx == x && cy < next_y)) implies #[trigger] after[cx
            * 32 + cy] by {
            self.lemma_visited_after(visited, q, cx, cy);
            if cx < x || (cx == x && cy < y) {
                assert(visited[cx * 32 + cy]);
            } else {
                assert(q.covers(cx, cy));
            }
        }
        self.lemma_scan_cover(after, x, next_y);
        assert(quads == seq![q] + rest);
        assert(quads.len() == rest.len() + 1);
        assert(quads[0] == q);
        assert forall|i: int| 1 <= i < quads.len() implies quads[i] == rest[i - 1] by {}
        assert forall|i: int| 0 <= i < quads.len() implies (#[trigger] quads[i]).inside_layer() by {
            if i > 0 {
                assert(rest[i - 1].inside_layer());
            }
        }
        assert forall|i: int, cx: int, cy: int|
            0 <= i < quads.len() && #[trigger] quads[i].covers(cx, cy) implies !visited[cx * 32 + cy]
            && self.fits_quad(quads[i], cx, cy) by {
            if i == 0 {
                self.lemma_quad_cells(visited, x, y, cx, cy);
            } else {
                assert(rest[i - 1].inside_layer());
                assert(rest[i - 1].covers(cx, cy));
                self.lemma_visited_after(visited, q, cx, cy);
            }
        }
        assert forall|i: int, j: int, cx: int, cy: int|
            0 <= i < j < quads.len() && #[trigger] quads[i].covers(cx, cy) implies !#[trigger] quads[j].covers(
            cx,
            cy,
        ) by {
            if quads[j].covers(cx, cy) {
                assert(rest[j - 1].inside_layer());
                assert(rest[j - 1].covers(cx, cy));
                if i == 0 {
                    self.lemma_visited_after(visited, q, cx, cy);
                    assert(!after[cx * 32 + cy]);
                } else {
                    assert(rest[i - 1].covers(cx, cy));
                }
            }
        }
        assert forall|cx: int, cy: int|
            0 <= cx < 32 && 0 <= cy < 32 && !visited[cx * 32 + cy] && #[trigger] self.shows_face(
                cx,
                cy,
            ) implies exists|i: int| 0 <= i < quads.len() && #[trigger] quads[i].covers(cx, cy) by {
            self.lemma_visited_after(visited, q, cx, cy);
            if q.covers(cx, cy) {
                assert(quads[0].covers(cx, cy));
            } else {
                assert(!after[cx * 32 + cy]);
                let i = choose|i: int| 0 <= i < rest.len() && #[trigger] rest[i].covers(cx, cy);
                assert(quads[i + 1].covers(cx, cy));
            }
        }
    }

    /// The quads of a layer cover it: every quad lies inside the layer; a
    /// quad holds only cells that show a face which merges with the face of
    /// the quad and has its light; no two quads share a cell; and every
    /// cell that shows a face lies in a quad, which by the rest is the
    /// only one.
    pub proof fn lemma_quads_cover(self)
        ensures
            forall|i: int| 0 <= i < self.quads().len() ==> (#[trigger] self.quads()[i]).inside_layer(),
            forall|i: int, cx: int, cy: int|
                0 <= i < self.quads().len() && #[trigger] self.quads()[i].covers(cx, cy)
                    ==> self.fits_quad(self.quads()[i], cx, cy),
            forall|i: int, j: int, cx: int, cy: int|
                0 <= i < j < self.quads().len() && #[trigger] self.quads()[i].covers(cx, cy)
                    ==> !#[trigger] self.quads()[j].covers(cx, cy),
            forall|cx: int, cy: int|
                0 <= cx < 32 && 0 <= cy < 32 && #[trigger] self.shows_face(cx, cy) ==> exists|i: int|
                    0 <= i < self.quads().len() && #[trigger] self.quads()[i].covers(cx, cy),
    {
        self.lemma_scan_cover(none_visited(), 0, 0);
        let quads = self.quads();
        assert(self.covered(quads, none_visited()));
        assert forall|cx: int, cy: int|
            0 <= cx < 32 && 0 <= cy < 32 && #[trigger] self.shows_face(cx, cy) implies exists|i: int|
            0 <= i < quads.len() && #[trigger] quads[i].covers(cx, cy) by {
            assert(!none_visited()[cx * 32 + cy]);
        }
    }
}

/// The quads of a layer of a chunk cover the layer: every quad lies inside
/// the layer; a quad holds only cells that show a face which merges with
/// the face of the quad and has its light; no two quads share a cell; and
/// every cell that shows a face lies in exactly one quad.
pub proof fn lemma_layer_quads_cover(
    blocks: ChunkMeshData,
    models: Seq<BlockModelUv>,
    face: FaceDirection,
    layer: int,
)
    ensures
        forall|i: int|
            0 <= i < layer_quads(blocks, models, face, layer).len() ==> (#[trigger] layer_quads(
                blocks,
                models,
                face,
                layer,
            )[i]).inside_layer(),
        forall|i: int, cx: int, cy: int|
            0 <= i < layer_quads(blocks, models, face, layer).len() && #[trigger] layer_quads(
                blocks,
                models,
                face,
                layer,
            )[i].covers(cx, cy) ==> layer_view(blocks, models, face, layer).fits_quad(
                layer_quads(blocks, models, face, layer)[i],
                cx,
                cy,
            ),
        forall|i: int, j: int, cx: int, cy: int|
            0 <= i < j < layer_quads(blocks, models, face, layer).len() && #[trigger] layer_quads(
                blocks,
                models,
                face,
                layer,
            )[i].covers(cx, cy) ==> !#[trigger] layer_quads(blocks, models, face, layer)[j].covers(
                cx,
                cy,
            ),
        forall|cx: int, cy: int|
            0 <= cx < 32 && 0 <= cy < 32 && #[trigger] layer_view(
                blocks,
                models,
                face,
                layer,
            ).shows_face(cx, cy) ==> exists|i: int|
                0 <= i < layer_quads(blocks, models, face, layer).len() && #[trigger] layer_quads(
                    blocks,
                    models,
                    face,
                    layer,
                )[i].covers(cx, cy),
{
    let lv = layer_view(blocks, models, face, layer);
    let quads = layer_quads(blocks, models, face, layer);
    lv.lemma_quads_cover();
    assert(quads == lv.quads());
    assert forall|cx: int, cy: int|
        0 <= cx < 32 && 0 <= cy < 32 && #[trigger] lv.shows_face(cx, cy) implies exists|i: int|
        0 <= i < quads.len() && #[trigger] quads[i].covers(cx, cy) by {
        let i = choose|i: int| 0 <= i < lv.quads().len() && #[trigger] lv.quads()[i].covers(cx, cy);
        assert(quads[i].covers(cx, cy));
    }
}

} // verus!
