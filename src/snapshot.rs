//! Per-sweep copies of every cell's particle id and behavior flags, which
//! behaviors read to look at their neighbours and swap to move.
use vstd::prelude::*;
use crate::behaviors::BehaviorId;
use crate::grid::Position;
use crate::particle::ParticleId;

verus! {

/// Two same-shaped row-major arrays over a `width` × `height` grid.
pub struct Snapshot {
    pub width: i32,
    pub height: i32,
    pub ids: Vec<ParticleId>,
    pub flags: Vec<BehaviorId>,
}

/// `(x, y)` lies on a `width` × `height` grid.
pub open spec fn on_grid(p: Position, width: int, height: int) -> bool {
    0 <= p.0 < width && 0 <= p.1 < height
}

/// The row-major index of `p` on a grid `width` cells wide.
pub open spec fn cell_index(p: Position, width: int) -> int {
    p.1 * width + p.0
}

pub proof fn lemma_cell_index_bounds(p: Position, width: int, height: int)
    requires
        on_grid(p, width, height),
    ensures
        0 <= cell_index(p, width) < width * height,
{
    assert(0 <= p.1 * width + p.0 < width * height) by (nonlinear_arith)
        requires 0 <= p.0 < width, 0 <= p.1 < height;
}

/// Distinct cells have distinct indices.
pub proof fn lemma_cell_index_injective(p: Position, q: Position, width: int, height: int)
    requires
        on_grid(p, width, height),
        on_grid(q, width, height),
        p != q,
    ensures
        cell_index(p, width) != cell_index(q, width),
{
    if p.1 == q.1 {
    } else if p.1 < q.1 {
        assert(p.1 * width + p.0 < q.1 * width + q.0) by (nonlinear_arith)
            requires p.1 < q.1, 0 <= p.0 < width, 0 <= q.0;
    } else {
        assert(q.1 * width + q.0 < p.1 * width + p.0) by (nonlinear_arith)
            requires q.1 < p.1, 0 <= q.0 < width, 0 <= p.0;
    }
}

impl Snapshot {
    pub open spec fn wf(&self) -> bool {
        &&& self.width >= 0
        &&& self.height >= 0
        &&& self.ids@.len() == self.width * self.height
        &&& self.flags@.len() == self.ids@.len()
    }

    pub open spec fn in_bounds(&self, p: Position) -> bool {
        on_grid(p, self.width as int, self.height as int)
    }

    pub open spec fn cell(&self, p: Position) -> int {
        cell_index(p, self.width as int)
    }

    pub open spec fn id_at(&self, p: Position) -> ParticleId {
        self.ids@[self.cell(p)]
    }

    pub open spec fn flags_at(&self, p: Position) -> BehaviorId {
        self.flags@[self.cell(p)]
    }

    pub open spec fn same_shape(&self, other: &Snapshot) -> bool {
        self.width == other.width && self.height == other.height
    }

    /// `self` is `old` with the contents of cells `a` and `b` exchanged.
    pub open spec fn is_swap_of(&self, old: &Snapshot, a: Position, b: Position) -> bool {
        &&& self.same_shape(old)
        &&& self.ids@ == old.ids@.update(old.cell(a), old.id_at(b)).update(old.cell(b), old.id_at(a))
        &&& self.flags@ == old.flags@.update(old.cell(a), old.flags_at(b)).update(old.cell(b), old.flags_at(a))
    }

    /// The row-major index of an in-bounds cell.
    pub fn index(&self, p: Position) -> (r: usize)
        requires
            self.wf(),
            self.in_bounds(p),
        ensures
            r == self.cell(p),
            r < self.ids@.len(),
    {
        proof {
            lemma_cell_index_bounds(p, self.width as int, self.height as int);
        }
        let w = self.width as usize;
        let y = p.1 as usize;
        let n = self.ids.len();
        assert(y * w + p.0 < n);
        y * w + (p.0 as usize)
    }

    pub fn contains(&self, p: Position) -> (r: bool)
        ensures
            r == self.in_bounds(p),
    {
        0 <= p.0 && p.0 < self.width && 0 <= p.1 && p.1 < self.height
    }

    pub fn id(&self, p: Position) -> (r: ParticleId)
        requires
            self.wf(),
            self.in_bounds(p),
        ensures
            r == self.id_at(p),
    {
        let i = self.index(p);
        self.ids[i]
    }

    pub fn flags(&self, p: Position) -> (r: BehaviorId)
        requires
            self.wf(),
            self.in_bounds(p),
        ensures
            r == self.flags_at(p),
    {
        let i = self.index(p);
        self.flags[i]
    }

    /// Exchanges the id and the flags of cells `a` and `b`.
    pub fn swap_cells(&mut self, a: Position, b: Position)
        requires
            old(self).wf(),
            old(self).in_bounds(a),
            old(self).in_bounds(b),
        ensures
            final(self).wf(),
            final(self).is_swap_of(old(self), a, b),
    {
        let ia = self.index(a);
        let ib = self.index(b);
        let id_a = self.ids[ia];
        let id_b = self.ids[ib];
        self.ids.set(ia, id_b);
        self.ids.set(ib, id_a);
        let flags_a = self.flags[ia];
        let flags_b = self.flags[ib];
        self.flags.set(ia, flags_b);
        self.flags.set(ib, flags_a);
    }
}

} // verus!
