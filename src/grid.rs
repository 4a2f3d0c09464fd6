//! The grid of particles and the per-frame sweep that updates them.
use vstd::prelude::*;
use rand::rngs::StdRng;
use crate::brush_settings::BrushSettings;
use crate::behaviors::AIR_LIKE_ID;
use crate::color::Color;
use crate::particle::{species_id, Particle, ParticleId, EMPTY_ID};
use crate::particle_action::{ParticleAction, Species};
use crate::random::{below, coin, seeded_rng, CHANCE_ONE};
use crate::snapshot::{cell_index, lemma_cell_index_bounds, lemma_cell_index_injective, on_grid, Snapshot};

verus! {

/// A cell as (column, row); row 0 is the top and rows grow downward.
pub type Position = (i32, i32);

/// The side of a cell in window pixels.
pub const PIXEL_SIZE: i32 = 5;

/// The cell of row-major index `i` on a grid `width` cells wide.
pub open spec fn position_of(i: int, width: int) -> Position {
    ((i % width) as i32, (i / width) as i32)
}

/// The cells of a grid for a window of `window_width` × `window_height` pixels.
pub open spec fn cell_count(window_width: i32, window_height: i32) -> int {
    let w: int = if window_width < 0 { 0 } else { window_width / PIXEL_SIZE };
    let h: int = if window_height < 0 { 0 } else { window_height / PIXEL_SIZE };
    w * h
}

/// `p` lies within the round brush of radius `size` centred on `center`.
pub open spec fn in_disc(center: Position, size: int, p: Position) -> bool {
    let dx = p.0 - center.0;
    let dy = p.1 - center.1;
    &&& -size <= dx <= size
    &&& -size <= dy <= size
    &&& dx * dx + dy * dy <= size * size
}

/// The brush offset of `p` from `center` comes before `(i, j)`, columns first.
pub open spec fn reached(center: Position, i: int, j: int, p: Position) -> bool {
    let dx = p.0 - center.0;
    let dy = p.1 - center.1;
    dx < i || (dx == i && dy < j)
}

/// Exchanging two entries of a sequence keeps its multiset.
pub proof fn lemma_swap_to_multiset<A>(s: Seq<A>, i: int, j: int)
    requires
        0 <= i < s.len(),
        0 <= j < s.len(),
    ensures
        s.update(i, s[j]).update(j, s[i]).to_multiset() == s.to_multiset(),
{
    broadcast use vstd::seq_lib::to_multiset_update, vstd::seq_lib::to_multiset_contains,
        vstd::multiset::group_multiset_properties, vstd::multiset::group_multiset_axioms;
    let s1 = s.update(i, s[j]);
    if i == j {
        assert(s.update(i, s[j]).update(j, s[i]) =~= s);
    } else {
        assert(s1[j] == s[j]);
        assert(s1.to_multiset() == s.to_multiset().insert(s[j]).remove(s[i]));
        assert(s1.update(j, s[i]).to_multiset() == s1.to_multiset().insert(s[i]).remove(s[j]));
        let m = s.to_multiset();
        assert(s.contains(s[i]));
        assert(s.contains(s[j]));
        assert(m.count(s[i]) > 0);
        assert(m.count(s[j]) > 0);
        assert(m.insert(s[j]).remove(s[i]).insert(s[i]).remove(s[j]) =~= m);
    }
}

/// The cells of row `y` of a grid `width` cells wide, left to right when `forward`, else
/// right to left.
pub open spec fn row_scan(width: int, y: int, forward: bool) -> Seq<Position> {
    Seq::new(width as nat, |k: int| ((if forward { k } else { width - 1 - k }) as i32, y as i32))
}

/// The order of a sweep: the rows from the bottom one up, row number `k` counted from the
/// bottom scanned in direction `dirs[k]`.
pub open spec fn sweep_order(width: int, height: int, dirs: Seq<bool>) -> Seq<Position>
    decreases dirs.len(),
{
    if dirs.len() == 0 {
        Seq::empty()
    } else {
        sweep_order(width, height, dirs.drop_last()) + row_scan(width, height - dirs.len(), dirs.last())
    }
}

/// The kill and spawn requests held by `cells`, cell after cell in row-major order.
pub open spec fn pending_of(cells: Seq<Particle>) -> Seq<ParticleAction>
    decreases cells.len(),
{
    if cells.len() == 0 {
        Seq::empty()
    } else {
        pending_of(cells.drop_last()) + cells.last().required_actions@
    }
}

/// `after` holds the particles of `before`, each stamped with `generation` and with its
/// requests handed over.
pub open spec fn cleared(before: Seq<Particle>, after: Seq<Particle>, generation: u64) -> bool {
    &&& after.len() == before.len()
    &&& forall|i: int| 0 <= i < before.len() ==> {
        &&& (#[trigger] after[i]).state == before[i].state
        &&& after[i].behaviors == before[i].behaviors
        &&& after[i].modified == before[i].modified
        &&& after[i].generation == generation
        &&& after[i].required_actions@.len() == 0
    }
}

/// `p` stamped with the sweep number `generation`.
pub open spec fn stamped(p: Particle, generation: u64) -> Particle {
    Particle { generation, ..p }
}

/// The cell that a kill or spawn request is about.
pub open spec fn action_cell(action: ParticleAction) -> Position {
    match action {
        ParticleAction::KillParticle { position } => position,
        ParticleAction::SpawnParticle { position, .. } => position,
        ParticleAction::SetPosition { position } => position,
        ParticleAction::SetColor { .. } => (-1i32, -1i32),
    }
}

/// Owns every particle, one per cell in row-major order, and the cells to redraw.
pub struct Grid {
    pub width: i32,
    pub height: i32,
    pub cells: Vec<Particle>,
    /// One flag per cell: its color may have changed since the last draw.
    pub cells_to_draw: Vec<bool>,
    /// The number of the last sweep, wrapping.
    pub generation: u64,
    pub rng: StdRng,
    /// The particles updated in the last sweep, in order, each named by the cell it started
    /// that sweep in.
    pub sweep_log: Ghost<Seq<int>>,
}

impl Grid {
    /// The shape and the particles are sound.
    pub open spec fn wf_shape(&self) -> bool {
        &&& self.width >= 0
        &&& self.height >= 0
        &&& self.cells@.len() == self.width * self.height
        &&& self.cells_to_draw@.len() == self.cells@.len()
        &&& forall|i: int| 0 <= i < self.cells@.len() ==> (#[trigger] self.cells@[i]).wf()
    }

    /// Between sweeps: every particle carries the last sweep's number and has no pending request.
    pub open spec fn wf(&self) -> bool {
        &&& self.wf_shape()
        &&& forall|i: int| 0 <= i < self.cells@.len() ==> (#[trigger] self.cells@[i]).generation == self.generation
        &&& forall|i: int| 0 <= i < self.cells@.len() ==> (#[trigger] self.cells@[i]).required_actions@.len() == 0
    }

    pub open spec fn in_bounds(&self, p: Position) -> bool {
        on_grid(p, self.width as int, self.height as int)
    }

    pub open spec fn cell(&self, p: Position) -> int {
        cell_index(p, self.width as int)
    }

    pub open spec fn id_at(&self, p: Position) -> ParticleId {
        self.cells@[self.cell(p)].state.particle_id
    }

    /// The particle id of every cell, row-major.
    pub open spec fn ids(&self) -> Seq<ParticleId> {
        self.cells@.map_values(|p: Particle| p.state.particle_id)
    }

    /// No particle on the grid ever asks for a kill or a spawn.
    pub open spec fn all_conserve_matter(&self) -> bool {
        forall|i: int| 0 <= i < self.cells@.len() ==> (#[trigger] self.cells@[i]).conserves_matter()
    }

    /// The dirty cells among the first `k`, with their colors, in row-major order.
    pub open spec fn dirty_prefix(&self, k: int) -> Seq<(Position, Color)>
        decreases k,
    {
        if k <= 0 {
            Seq::empty()
        } else if self.cells_to_draw@[k - 1] {
            self.dirty_prefix(k - 1).push((position_of(k - 1, self.width as int), self.cells@[k - 1].state.color))
        } else {
            self.dirty_prefix(k - 1)
        }
    }

    /// What a draw hands out: every dirty cell with its color, in row-major order.
    pub open spec fn to_draw(&self) -> Seq<(Position, Color)> {
        self.dirty_prefix(self.cells@.len() as int)
    }

    /// A grid of `window_width / PIXEL_SIZE` × `window_height / PIXEL_SIZE` empty cells
    /// (none for a negative size), whose random choices follow from `seed` alone.
    pub fn new(window_width: i32, window_height: i32, seed: u64) -> (g: Grid)
        requires
            cell_count(window_width, window_height) <= usize::MAX,
        ensures
            g.wf(),
            g.width == if window_width < 0 { 0 } else { window_width / PIXEL_SIZE },
            g.height == if window_height < 0 { 0 } else { window_height / PIXEL_SIZE },
            forall|i: int| 0 <= i < g.cells@.len() ==> (#[trigger] g.cells@[i]).state.particle_id == EMPTY_ID,
            forall|i: int| 0 <= i < g.cells@.len() ==> (#[trigger] g.cells@[i]).state.behaviors_ids == AIR_LIKE_ID,
            forall|i: int| 0 <= i < g.cells@.len() ==> (#[trigger] g.cells@[i]).state.position == position_of(i, g.width as int),
            forall|i: int| 0 <= i < g.cells@.len() ==> !(#[trigger] g.cells_to_draw@[i]),
    {
        Self::make_grid(window_width, window_height, seeded_rng(seed))
    }

    fn make_grid(window_width: i32, window_height: i32, rng: StdRng) -> (g: Grid)
        requires
            cell_count(window_width, window_height) <= usize::MAX,
        ensures
            g.wf(),
            g.width == if window_width < 0 { 0 } else { window_width / PIXEL_SIZE },
            g.height == if window_height < 0 { 0 } else { window_height / PIXEL_SIZE },
            forall|i: int| 0 <= i < g.cells@.len() ==> (#[trigger] g.cells@[i]).state.particle_id == EMPTY_ID,
            forall|i: int| 0 <= i < g.cells@.len() ==> (#[trigger] g.cells@[i]).state.behaviors_ids == AIR_LIKE_ID,
            forall|i: int| 0 <= i < g.cells@.len() ==> (#[trigger] g.cells@[i]).state.position == position_of(i, g.width as int),
            forall|i: int| 0 <= i < g.cells@.len() ==> !(#[trigger] g.cells_to_draw@[i]),
    {
        let width = if window_width < 0 { 0 } else { window_width / PIXEL_SIZE };
        let height = if window_height < 0 { 0 } else { window_height / PIXEL_SIZE };
        assert(0 <= width * height) by (nonlinear_arith)
            requires 0 <= width, 0 <= height;
        let n = (width as usize) * (height as usize);
        assert(width == 0 ==> width * height == 0) by (nonlinear_arith);
        let mut cells: Vec<Particle> = Vec::new();
        let mut cells_to_draw: Vec<bool> = Vec::new();
        let mut i: usize = 0;
        while i < n
            invariant
                0 <= i <= n,
                n == width * height,
                width > 0 || n == 0,
                cells@.len() == i,
                cells_to_draw@.len() == i,
                forall|k: int| 0 <= k < i ==> (#[trigger] cells@[k]).wf(),
                forall|k: int| 0 <= k < i ==> (#[trigger] cells@[k]).generation == 0,
                forall|k: int| 0 <= k < i ==> (#[trigger] cells@[k]).required_actions@.len() == 0,
                forall|k: int| 0 <= k < i ==> (#[trigger] cells@[k]).state.particle_id == EMPTY_ID,
                forall|k: int| 0 <= k < i ==> (#[trigger] cells@[k]).state.behaviors_ids == AIR_LIKE_ID,
                forall|k: int| 0 <= k < i ==> (#[trigger] cells@[k]).state.position == position_of(k, width as int),
                forall|k: int| 0 <= k < i ==> !(#[trigger] cells_to_draw@[k]),
            decreases n - i,
        {
            let w = width as usize;
            assert(i / w < height) by (nonlinear_arith)
                requires i < n, n == w * height, w > 0;
            let x = (i % w) as i32;
            let y = (i / w) as i32;
            cells.push(Particle::new_empty((x, y)));
            cells_to_draw.push(false);
            i = i + 1;
        }
        Grid { width, height, cells, cells_to_draw, generation: 0, rng, sweep_log: Ghost(Seq::empty()) }
    }

    fn index(&self, p: Position) -> (r: usize)
        requires
            self.wf_shape(),
            self.in_bounds(p),
        ensures
            r == self.cell(p),
            r < self.cells@.len(),
    {
        proof {
            lemma_cell_index_bounds(p, self.width as int, self.height as int);
        }
        let w = self.width as usize;
        let y = p.1 as usize;
        let n = self.cells.len();
        assert(y * w + p.0 < n);
        y * w + (p.0 as usize)
    }

    pub fn contains(&self, p: Position) -> (r: bool)
        ensures
            r == self.in_bounds(p),
    {
        0 <= p.0 && p.0 < self.width && 0 <= p.1 && p.1 < self.height
    }

    /// Every cell becomes empty and is to be redrawn.
    pub fn clear(&mut self)
        requires
            old(self).wf(),
        ensures
            final(self).wf(),
            final(self).width == old(self).width,
            final(self).height == old(self).height,
            final(self).generation == old(self).generation,
            forall|i: int| 0 <= i < final(self).cells@.len() ==> (#[trigger] final(self).cells@[i]).state.particle_id == EMPTY_ID,
            forall|i: int| 0 <= i < final(self).cells@.len() ==> #[trigger] final(self).cells_to_draw@[i],
    {
        let n = self.cells.len();
        let mut i: usize = 0;
        while i < n
            invariant
                0 <= i <= n,
                n == self.cells@.len(),
                self.wf(),
                self.width == old(self).width,
                self.height == old(self).height,
                self.generation == old(self).generation,
                forall|k: int| 0 <= k < i ==> (#[trigger] self.cells@[k]).state.particle_id == EMPTY_ID,
                forall|k: int| 0 <= k < i ==> #[trigger] self.cells_to_draw@[k],
            decreases n - i,
        {
            let w = self.width as usize;
            assert(w > 0 && i / w < self.height) by (nonlinear_arith)
                requires i < n, n == w * self.height, self.height >= 0, w == self.width;
            let x = (i % w) as i32;
            let y = (i / w) as i32;
            let mut p = Particle::new_empty((x, y));
            p.generation = self.generation;
            self.cells.set(i, p);
            self.cells_to_draw.set(i, true);
            i = i + 1;
        }
    }

    /// Puts `value` into the cell at `position` and marks it for redraw; a position off the
    /// grid changes nothing. The particle joins the present sweep count with no pending request.
    pub fn set(&mut self, position: Position, value: Particle)
        requires
            old(self).wf(),
            value.wf(),
        ensures
            final(self).wf(),
            final(self).width == old(self).width,
            final(self).height == old(self).height,
            final(self).generation == old(self).generation,
            final(self).sweep_log == old(self).sweep_log,
            !old(self).in_bounds(position) ==> {
                &&& final(self).cells@ == old(self).cells@
                &&& final(self).cells_to_draw@ == old(self).cells_to_draw@
            },
            old(self).in_bounds(position) ==> {
                let i = old(self).cell(position);
                &&& final(self).cells@.len() == old(self).cells@.len()
                &&& forall|k: int| 0 <= k < old(self).cells@.len() && k != i ==> #[trigger] final(self).cells@[k] == old(self).cells@[k]
                &&& final(self).cells@[i].state == value.state
                &&& final(self).cells@[i].behaviors == value.behaviors
                &&& final(self).cells_to_draw@ == old(self).cells_to_draw@.update(i, true)
            },
    {
        if !self.contains(position) {
            return;
        }
        let i = self.index(position);
        let mut value = value;
        value.generation = self.generation;
        value.required_actions = Vec::new();
        self.cells.set(i, value);
        self.cells_to_draw.set(i, true);
    }

    pub fn get(&self, position: Position) -> (r: &Particle)
        requires
            self.wf_shape(),
            self.in_bounds(position),
        ensures
            *r == self.cells@[self.cell(position)],
    {
        let i = self.index(position);
        &self.cells[i]
    }

    pub fn is_empty(&self, position: Position) -> (r: bool)
        requires
            self.wf_shape(),
            self.in_bounds(position),
        ensures
            r == (self.id_at(position) == EMPTY_ID),
    {
        self.get(position).get_id() == EMPTY_ID
    }

    /// Exchanges the particles of cells `i` and `j`.
    fn exchange(&mut self, i: usize, j: usize)
        requires
            old(self).wf_shape(),
            i < old(self).cells@.len(),
            j < old(self).cells@.len(),
        ensures
            final(self).cells@ == old(self).cells@.update(i as int, old(self).cells@[j as int]).update(j as int, old(self).cells@[i as int]),
            final(self).wf_shape(),
            final(self).width == old(self).width,
            final(self).height == old(self).height,
            final(self).generation == old(self).generation,
            final(self).cells_to_draw == old(self).cells_to_draw,
            final(self).sweep_log == old(self).sweep_log,
    {
        if i == j {
            assert(self.cells@ =~= old(self).cells@.update(i as int, old(self).cells@[j as int]).update(j as int, old(self).cells@[i as int]));
            return;
        }
        let mut held = Particle::new(self.cells[i].get_position(), Color::black(), EMPTY_ID, Vec::new());
        std::mem::swap(&mut self.cells[i], &mut held);
        std::mem::swap(&mut self.cells[j], &mut held);
        std::mem::swap(&mut self.cells[i], &mut held);
    }

    /// Exchanges the particles at `a` and `b` and marks both for redraw, unless both are empty.
    pub fn swap(&mut self, a: Position, b: Position)
        requires
            old(self).wf(),
            old(self).in_bounds(a),
            old(self).in_bounds(b),
        ensures
            final(self).wf(),
            final(self).width == old(self).width,
            final(self).height == old(self).height,
            final(self).generation == old(self).generation,
            old(self).id_at(a) == EMPTY_ID && old(self).id_at(b) == EMPTY_ID ==> *final(self) == *old(self),
            !(old(self).id_at(a) == EMPTY_ID && old(self).id_at(b) == EMPTY_ID) ==> {
                &&& final(self).cells@ == old(self).cells@.update(old(self).cell(a), old(self).cells@[old(self).cell(b)]).update(
                    old(self).cell(b),
                    old(self).cells@[old(self).cell(a)],
                )
                &&& final(self).cells_to_draw@ == old(self).cells_to_draw@.update(old(self).cell(a), true).update(old(self).cell(b), true)
            },
    {
        if self.is_empty(a) && self.is_empty(b) {
            return;
        }
        let i = self.index(a);
        let j = self.index(b);
        self.exchange(i, j);
        self.cells_to_draw.set(i, true);
        self.cells_to_draw.set(j, true);
    }

    /// Hands out every cell marked for redraw with its color, in row-major order, and
    /// unmarks them all.
    pub fn draw(&mut self) -> (r: Vec<(Position, Color)>)
        requires
            old(self).wf(),
        ensures
            final(self).wf(),
            r@ == old(self).to_draw(),
            final(self).cells == old(self).cells,
            final(self).width == old(self).width,
            final(self).height == old(self).height,
            final(self).generation == old(self).generation,
            final(self).cells_to_draw@.len() == old(self).cells_to_draw@.len(),
            forall|i: int| 0 <= i < final(self).cells_to_draw@.len() ==> !(#[trigger] final(self).cells_to_draw@[i]),
    {
        let n = self.cells.len();
        let mut r: Vec<(Position, Color)> = Vec::new();
        let mut i: usize = 0;
        while i < n
            invariant
                0 <= i <= n,
                n == self.cells@.len(),
                self.wf(),
                self.cells == old(self).cells,
                self.width == old(self).width,
                self.height == old(self).height,
                self.generation == old(self).generation,
                self.cells_to_draw@.len() == n,
                forall|k: int| 0 <= k < i ==> !(#[trigger] self.cells_to_draw@[k]),
                forall|k: int| i <= k < n ==> #[trigger] self.cells_to_draw@[k] == old(self).cells_to_draw@[k],
                r@ == old(self).dirty_prefix(i as int),
            decreases n - i,
        {
            if self.cells_to_draw[i] {
                let w = self.width as usize;
                assert(w > 0 && i / w < self.height) by (nonlinear_arith)
                    requires i < n, n == self.width * self.height, self.height >= 0, w == self.width;
                let x = (i % w) as i32;
                let y = (i / w) as i32;
                r.push(((x, y), self.cells[i].get_color()));
                self.cells_to_draw.set(i, false);
            }
            i = i + 1;
        }
        r
    }

    fn build_cell_types(&self) -> (r: Vec<ParticleId>)
        requires
            self.wf_shape(),
        ensures
            r@ == self.ids(),
    {
        let n = self.cells.len();
        let mut r: Vec<ParticleId> = Vec::new();
        let mut i: usize = 0;
        while i < n
            invariant
                0 <= i <= n,
                n == self.cells@.len(),
                r@ == self.ids().subrange(0, i as int),
            decreases n - i,
        {
            r.push(self.cells[i].get_id());
            i = i + 1;
            assert(r@ =~= self.ids().subrange(0, i as int));
        }
        assert(r@ =~= self.ids());
        r
    }

    fn build_cell_behaviors(&self) -> (r: Vec<u16>)
        requires
            self.wf_shape(),
        ensures
            r@.len() == self.cells@.len(),
            forall|i: int| 0 <= i < r@.len() ==> #[trigger] r@[i] == self.cells@[i].state.behaviors_ids,
    {
        let n = self.cells.len();
        let mut r: Vec<u16> = Vec::new();
        let mut i: usize = 0;
        while i < n
            invariant
                0 <= i <= n,
                n == self.cells@.len(),
                r@.len() == i,
                forall|k: int| 0 <= k < i ==> #[trigger] r@[k] == self.cells@[k].state.behaviors_ids,
            decreases n - i,
        {
            r.push(self.cells[i].get_behaviors_ids());
            i = i + 1;
        }
        r
    }

    /// The id and flags of every cell, as behaviors see them at the start of a sweep.
    pub fn snapshot(&self) -> (s: Snapshot)
        requires
            self.wf_shape(),
        ensures
            s.wf(),
            s.width == self.width,
            s.height == self.height,
            s.ids@ == self.ids(),
            forall|i: int| 0 <= i < s.flags@.len() ==> #[trigger] s.flags@[i] == self.cells@[i].state.behaviors_ids,
    {
        Snapshot {
            width: self.width,
            height: self.height,
            ids: self.build_cell_types(),
            flags: self.build_cell_behaviors(),
        }
    }

    /// What painting with `brush` round `center` may have changed from `old`: only cells within
    /// the brush, only empty ones unless it paints empty cells, and only into its species.
    pub open spec fn painted_from(&self, old: &Grid, center: Position, brush: BrushSettings) -> bool {
        &&& self.wf()
        &&& self.width == old.width
        &&& self.height == old.height
        &&& self.generation == old.generation
        &&& self.cells@.len() == old.cells@.len()
        &&& forall|p: Position| #[trigger] old.in_bounds(p) && !in_disc(center, brush.size as int, p)
            ==> self.cells@[old.cell(p)] == old.cells@[old.cell(p)]
        &&& brush.species != Species::Empty ==> forall|p: Position| #[trigger] old.in_bounds(p) && old.id_at(p) != EMPTY_ID
            ==> self.cells@[old.cell(p)] == old.cells@[old.cell(p)]
        &&& forall|p: Position| #[trigger] old.in_bounds(p) && self.cells@[old.cell(p)] != old.cells@[old.cell(p)]
            ==> self.id_at(p) == species_id(brush.species) && self.cells_to_draw@[old.cell(p)]
        &&& self.cells_to_draw@.len() == old.cells_to_draw@.len()
        &&& forall|k: int| 0 <= k < old.cells_to_draw@.len() && #[trigger] old.cells_to_draw@[k] ==> self.cells_to_draw@[k]
        &&& forall|p: Position| #[trigger] old.in_bounds(p) && !in_disc(center, brush.size as int, p)
            ==> self.cells_to_draw@[old.cell(p)] == old.cells_to_draw@[old.cell(p)]
    }

    /// Painting at certain probability has reached every cell that `done` selects: each of those
    /// within the brush and open to it now holds the brush's species; the cells not yet reached
    /// are as in `old`; at probability zero nothing changed at all.
    pub open spec fn painted_through(&self, old: &Grid, center: Position, brush: BrushSettings, draws: Map<Position, int>,
        i: int, j: int) -> bool {
        &&& forall|p: Position| #[trigger] old.in_bounds(p) && !reached(center, i, j, p)
            ==> self.cells@[old.cell(p)] == old.cells@[old.cell(p)] && self.cells_to_draw@[old.cell(p)] == old.cells_to_draw@[old.cell(p)]
        &&& forall|p: Position| #[trigger] old.in_bounds(p) && reached(center, i, j, p) && in_disc(center, brush.size as int, p)
            ==> Grid::brushed(self, old, brush, draws, p)
        &&& brush.probability >= CHANCE_ONE ==> forall|p: Position| #[trigger] old.in_bounds(p) && reached(center, i, j, p)
            && in_disc(center, brush.size as int, p) && (brush.species == Species::Empty || old.id_at(p) == EMPTY_ID)
            ==> self.id_at(p) == species_id(brush.species) && self.cells_to_draw@[old.cell(p)]
        &&& brush.probability == 0 ==> self.cells@ == old.cells@ && self.cells_to_draw@ == old.cells_to_draw@
    }

    /// Cell `p` after painting with `brush` from `old`, with the draw `draws[p]` below
    /// `CHANCE_ONE`: painted with the brush's species and marked when the draw falls below the
    /// brush probability and the cell is open to the brush (empty, or the brush paints empty
    /// cells); else as it was, mark included.
    pub open spec fn brushed(new: &Grid, old: &Grid, brush: BrushSettings, draws: Map<Position, int>, p: Position) -> bool {
        &&& draws.contains_key(p)
        &&& 0 <= draws[p] < CHANCE_ONE
        &&& if draws[p] < brush.probability && (brush.species == Species::Empty || old.id_at(p) == EMPTY_ID) {
            new.id_at(p) == species_id(brush.species) && new.cells_to_draw@[old.cell(p)]
        } else {
            new.cells@[old.cell(p)] == old.cells@[old.cell(p)] && new.cells_to_draw@[old.cell(p)] == old.cells_to_draw@[old.cell(p)]
        }
    }

    /// Every cell of the grid within the brush is as `brushed` says, for the draws `draws`.
    pub open spec fn brushed_all(new: &Grid, old: &Grid, center: Position, brush: BrushSettings, draws: Map<Position, int>) -> bool {
        forall|p: Position| #[trigger] old.in_bounds(p) && in_disc(center, brush.size as int, p)
            ==> Grid::brushed(new, old, brush, draws, p)
    }

    /// Paints the species of `brush_settings` round `center`: each cell of the grid within the
    /// brush radius gets, with the brush probability, a new particle, but an occupied cell
    /// only from a brush of empty cells. Cells off the grid are skipped.
    pub fn set_circle(&mut self, center: Position, brush_settings: &BrushSettings)
        requires
            old(self).wf(),
        ensures
            final(self).painted_from(old(self), center, *brush_settings),
            exists|draws: Map<Position, int>| #[trigger] Grid::brushed_all(final(self), old(self), center, *brush_settings, draws),
            brush_settings.probability >= CHANCE_ONE ==> forall|p: Position| #[trigger] old(self).in_bounds(p)
                && in_disc(center, brush_settings.size as int, p)
                && (brush_settings.species == Species::Empty || old(self).id_at(p) == EMPTY_ID)
                ==> final(self).id_at(p) == species_id(brush_settings.species) && final(self).cells_to_draw@[old(self).cell(p)],
            brush_settings.probability == 0 ==> final(self).cells@ == old(self).cells@ && final(self).cells_to_draw@ == old(self).cells_to_draw@,
    {
        let size = brush_settings.size as i64;
        let species = brush_settings.species;
        let ghost mut draws: Map<Position, int> = Map::empty();
        let mut i: i64 = -size;
        while i <= size
            invariant
                self.painted_from(old(self), center, *brush_settings),
                self.painted_through(old(self), center, *brush_settings, draws, i as int, -size as int),
                size == brush_settings.size,
                species == brush_settings.species,
                -size <= i,
            decreases size + 1 - i,
        {
            let mut j: i64 = -size;
            while j <= size
                invariant
                    self.painted_from(old(self), center, *brush_settings),
                    self.painted_through(old(self), center, *brush_settings, draws, i as int, j as int),
                    size == brush_settings.size,
                    species == brush_settings.species,
                    -size <= i <= size,
                    -size <= j,
                decreases size + 1 - j,
            {
                let a = i as i128;
                let b = j as i128;
                let r = size as i128;
                assert(0 <= a * a <= (i32::MAX as int) * (i32::MAX as int) && 0 <= b * b <= (i32::MAX as int) * (i32::MAX as int)
                    && 0 <= r * r <= (i32::MAX as int) * (i32::MAX as int)) by (nonlinear_arith)
                    requires -r <= a <= r, -r <= b <= r, r <= i32::MAX;
                if a * a + b * b <= r * r {
                    let nx = center.0 as i64 + i;
                    let ny = center.1 as i64 + j;
                    if 0 <= nx && nx < self.width as i64 && 0 <= ny && ny < self.height as i64 {
                        let p: Position = (nx as i32, ny as i32);
                        let draw = below(&mut self.rng, CHANCE_ONE);
                        proof {
                            draws = draws.insert(p, draw as int);
                            assert forall|q: Position| #[trigger] old(self).in_bounds(q) && reached(center, i as int, j as int, q)
                                implies q != p by {}
                        }
                        if draw < brush_settings.probability && (species == Species::Empty || self.is_empty(p)) {
                            let particle = Particle::of_species(species, p, &mut self.rng);
                            let ghost before = *self;
                            self.set(p, particle);
                            proof {
                                assert(self.cells_to_draw@ == before.cells_to_draw@.update(before.cell(p), true));
                                lemma_cell_index_bounds(p, self.width as int, self.height as int);
                                assert forall|k: int| 0 <= k < old(self).cells_to_draw@.len() && #[trigger] old(self).cells_to_draw@[k]
                                    implies self.cells_to_draw@[k] by {
                                    assert(before.cells_to_draw@[k]);
                                }
                                assert forall|q: Position| #[trigger] old(self).in_bounds(q) && q != p
                                    implies self.cells@[old(self).cell(q)] == before.cells@[old(self).cell(q)]
                                        && self.cells_to_draw@[old(self).cell(q)] == before.cells_to_draw@[old(self).cell(q)] by {
                                    lemma_cell_index_injective(p, q, self.width as int, self.height as int);
                                    lemma_cell_index_bounds(q, self.width as int, self.height as int);
                                }
                                assert(in_disc(center, size as int, p));
                                assert(p.0 - center.0 == i && p.1 - center.1 == j);
                                assert forall|q: Position| #[trigger] old(self).in_bounds(q) && reached(center, i as int, j as int, q)
                                    && in_disc(center, size as int, q) implies Grid::brushed(self, old(self), *brush_settings, draws, q) by {
                                    assert(q != p);
                                    assert(Grid::brushed(&before, old(self), *brush_settings, draws, q));
                                }
                            }
                        }
                    }
                }
                proof {
                    assert forall|p: Position| #[trigger] old(self).in_bounds(p) && reached(center, i as int, j as int + 1, p)
                        implies reached(center, i as int, j as int, p) || (p.0 - center.0 == i && p.1 - center.1 == j) by {}
                }
                j = j + 1;
            }
            proof {
                assert forall|p: Position| #[trigger] old(self).in_bounds(p) && reached(center, i as int, j as int, p)
                    implies reached(center, i as int + 1, -size as int, p) by {
                    if p.0 - center.0 == i {
                        assert(in_disc(center, size as int, p) ==> p.1 - center.1 <= size);
                    }
                }
                assert forall|p: Position| #[trigger] old(self).in_bounds(p) && reached(center, i as int + 1, -size as int, p)
                    && in_disc(center, size as int, p) implies reached(center, i as int, j as int, p) by {}
            }
            i = i + 1;
        }
        proof {
            assert forall|p: Position| #[trigger] old(self).in_bounds(p) && in_disc(center, size as int, p)
                implies reached(center, i as int, -size as int, p) by {}
            assert(Grid::brushed_all(self, old(self), center, *brush_settings, draws));
        }
    }

    /// Visits the cell at `p` in the sweep numbered `current`: a particle not yet updated in
    /// this sweep is stamped and updated; if it moved, it trades cells with the particle at
    /// its new position. Changed cells are marked for redraw.
    fn visit(&mut self, p: Position, dt: u32, snapshot: &mut Snapshot, current: u64, origin: Ghost<Seq<int>>) -> (moved: Ghost<Seq<int>>)
        requires
            old(self).tracks(origin@, current),
            old(self).wf_shape(),
            old(self).in_bounds(p),
            old(self).generation == current,
            old(snapshot).wf(),
            old(snapshot).width == old(self).width,
            old(snapshot).height == old(self).height,
        ensures
            final(self).wf_shape(),
            final(self).width == old(self).width,
            final(self).height == old(self).height,
            final(self).generation == current,
            final(snapshot).wf(),
            final(snapshot).width == old(self).width,
            final(snapshot).height == old(self).height,
            final(self).tracks(moved@, current),
            Grid::visit_step(old(self), final(self), old(snapshot), final(snapshot), p, dt as int, current),
            old(self).all_conserve_matter() && old(self).nothing_pending() ==> {
                &&& final(self).all_conserve_matter()
                &&& final(self).nothing_pending()
                &&& final(self).ids().to_multiset() == old(self).ids().to_multiset()
            },
    {
        let i = self.index(p);
        if self.cells[i].generation == current {
            return origin;
        }
        let ghost snap0 = *snapshot;
        let ghost start = origin@[i as int];
        proof {
            assert(!self.sweep_log@.contains(start));
        }
        self.cells[i].generation = current;
        self.sweep_log = Ghost(self.sweep_log@.push(start));
        proof {
            let n = self.cells@.len() as int;
            assert forall|e: int| #[trigger] self.sweep_log@.contains(e) implies 0 <= e < n by {
                lemma_push_contains(old(self).sweep_log@, start, e);
            }
            assert forall|k: int| 0 <= k < n implies ((#[trigger] self.cells@[k]).generation == current
                <==> self.sweep_log@.contains(origin@[k])) by {
                lemma_push_contains(old(self).sweep_log@, start, origin@[k]);
                if k != i {
                    assert(origin@[k] != origin@[i as int]);
                }
            }
        }
        let ghost pre = self.cells@[i as int];
        let modified = self.cells[i].update(p, dt, snapshot, &mut self.rng);
        let ghost q = self.cells@[i as int];
        proof {
            assert(pre == stamped(old(self).cells@[i as int], current));
            assert(self.cells@ =~= old(self).cells@.update(i as int, q));
            assert(self.ids() =~= old(self).ids());
            if old(self).all_conserve_matter() && old(self).nothing_pending() {
                assert(old(self).cells@[i as int].conserves_matter());
                assert forall|k: int| 0 <= k < self.cells@.len() implies (#[trigger] self.cells@[k]).conserves_matter() by {
                    assert(old(self).cells@[k].conserves_matter());
                }
                assert forall|k: int| 0 <= k < self.cells@.len() implies (#[trigger] self.cells@[k]).required_actions@.len() == 0 by {
                    assert(old(self).cells@[k].required_actions@.len() == 0);
                }
            }
        }
        proof {
            assert(self.tracks(origin@, current));
        }
        let mut moved = origin;
        if modified {
            let np = self.cells[i].get_position();
            if (np.0 != p.0 || np.1 != p.1) && self.contains(np) {
                let j = self.index(np);
                let ghost moved_grid = *self;
                self.exchange(i, j);
                self.cells_to_draw.set(j, true);
                moved = Ghost(origin@.update(i as int, origin@[j as int]).update(j as int, origin@[i as int]));
                proof {
                    let n = self.cells@.len() as int;
                    assert forall|a: int, b: int| 0 <= a < n && 0 <= b < n && a != b
                        implies #[trigger] moved@[a] != #[trigger] moved@[b] by {
                        let sa = if a == i { j as int } else if a == j { i as int } else { a };
                        let sb = if b == i { j as int } else if b == j { i as int } else { b };
                        assert(moved@[a] == origin@[sa]);
                        assert(moved@[b] == origin@[sb]);
                    }
                    assert forall|k: int| 0 <= k < n implies ((#[trigger] self.cells@[k]).generation == current
                        <==> self.sweep_log@.contains(moved@[k])) by {
                        let sk = if k == i { j as int } else if k == j { i as int } else { k };
                        assert(self.cells@[k] == moved_grid.cells@[sk]);
                        assert(moved@[k] == origin@[sk]);
                    }
                    assert forall|k: int| 0 <= k < n implies 0 <= #[trigger] moved@[k] < n by {
                        let sk = if k == i { j as int } else if k == j { i as int } else { k };
                        assert(moved@[k] == origin@[sk]);
                    }
                }
                proof {
                    let moved = moved_grid;
                    assert(self.ids() =~= moved.ids().update(i as int, moved.ids()[j as int]).update(j as int, moved.ids()[i as int]));
                    lemma_swap_to_multiset(moved.ids(), i as int, j as int);
                    if old(self).all_conserve_matter() && old(self).nothing_pending() {
                        assert forall|k: int| 0 <= k < self.cells@.len() implies (#[trigger] self.cells@[k]).conserves_matter() by {
                            assert(moved.cells@[k].conserves_matter());
                            assert(moved.cells@[i as int].conserves_matter());
                            assert(moved.cells@[j as int].conserves_matter());
                        }
                        assert forall|k: int| 0 <= k < self.cells@.len() implies (#[trigger] self.cells@[k]).required_actions@.len() == 0 by {
                            assert(moved.cells@[k].required_actions@.len() == 0);
                            assert(moved.cells@[i as int].required_actions@.len() == 0);
                            assert(moved.cells@[j as int].required_actions@.len() == 0);
                        }
                    }
                }
            }
            self.cells_to_draw.set(i, true);
        }
        proof {
            assert(Particle::updated(&stamped(old(self).cells@[i as int], current), &q, p, dt as int, &snap0, snapshot, modified));
            assert(Grid::placed(old(self), self, i as int, q, modified, p));
        }
        moved
    }

    /// `origin` names, for each cell, the cell its particle started the sweep `current` in;
    /// the particles stamped with `current` are exactly those in the log, each logged once.
    pub open spec fn tracks(&self, origin: Seq<int>, current: u64) -> bool {
        let n = self.cells@.len() as int;
        &&& origin.len() == n
        &&& forall|i: int| 0 <= i < n ==> 0 <= #[trigger] origin[i] < n
        &&& forall|i: int, j: int| 0 <= i < n && 0 <= j < n && i != j ==> #[trigger] origin[i] != #[trigger] origin[j]
        &&& self.sweep_log@.no_duplicates()
        &&& forall|e: int| #[trigger] self.sweep_log@.contains(e) ==> 0 <= e < n
        &&& forall|i: int| 0 <= i < n ==> ((#[trigger] self.cells@[i]).generation == current <==> self.sweep_log@.contains(origin[i]))
    }

    /// After the particle `q` that an update left in cell `i` (that of `p`) reported `modified`:
    /// if it now stands on another cell of the grid, the two cells trade particles and both
    /// are marked for redraw; otherwise a modified cell is marked.
    pub open spec fn placed(before: &Grid, after: &Grid, i: int, q: Particle, modified: bool, p: Position) -> bool {
        let np = q.state.position;
        let mid = before.cells@.update(i, q);
        if modified && np != p && before.in_bounds(np) {
            let j = before.cell(np);
            &&& after.cells@ == mid.update(i, mid[j]).update(j, mid[i])
            &&& after.cells_to_draw@ == before.cells_to_draw@.update(j, true).update(i, true)
        } else {
            &&& after.cells@ == mid
            &&& after.cells_to_draw@ == if modified { before.cells_to_draw@.update(i, true) } else { before.cells_to_draw@ }
        }
    }

    /// `after` and the snapshot `s1` follow from visiting cell `p` of `before` (snapshot `s0`)
    /// in the sweep numbered `current`: a particle already stamped with `current` is left
    /// alone; any other is stamped, updated once on the snapshot, and placed.
    pub open spec fn visit_step(before: &Grid, after: &Grid, s0: &Snapshot, s1: &Snapshot, p: Position, dt: int, current: u64) -> bool {
        let i = before.cell(p);
        &&& after.width == before.width
        &&& after.height == before.height
        &&& if before.cells@[i].generation == current {
            &&& after.cells@ == before.cells@
            &&& after.cells_to_draw@ == before.cells_to_draw@
            &&& *s1 == *s0
        } else {
            exists|q: Particle, modified: bool| {
                &&& #[trigger] Particle::updated(&stamped(before.cells@[i], current), &q, p, dt, s0, s1, modified)
                &&& Grid::placed(before, after, i, q, modified, p)
            }
        }
    }

    /// `s` shows the id and the flags of every particle of `self`.
    pub open spec fn shows(&self, s: &Snapshot) -> bool {
        &&& s.width == self.width
        &&& s.height == self.height
        &&& s.ids@ == self.ids()
        &&& s.flags@.len() == self.cells@.len()
        &&& forall|i: int| 0 <= i < s.flags@.len() ==> #[trigger] s.flags@[i] == self.cells@[i].state.behaviors_ids
    }

    /// `grids` and `snaps` go through a sweep numbered `current` from `start`: the cells of
    /// `sweep_order(width, height, dirs)` visited one after the other.
    pub open spec fn swept_by(start: &Grid, grids: Seq<Grid>, snaps: Seq<Snapshot>, dirs: Seq<bool>, dt: int, current: u64) -> bool {
        let order = sweep_order(start.width as int, start.height as int, dirs);
        &&& dirs.len() == start.height
        &&& grids.len() == order.len() + 1
        &&& snaps.len() == order.len() + 1
        &&& grids[0].width == start.width
        &&& grids[0].height == start.height
        &&& grids[0].cells@ == start.cells@
        &&& grids[0].cells_to_draw@ == start.cells_to_draw@
        &&& start.shows(&snaps[0])
        &&& forall|k: int| 0 <= k < order.len() ==> #[trigger] Grid::visit_step(&grids[k], &grids[k + 1], &snaps[k], &snaps[k + 1], order[k], dt, current)
    }

    /// No particle holds a kill or spawn request.
    pub open spec fn nothing_pending(&self) -> bool {
        forall|i: int| 0 <= i < self.cells@.len() ==> (#[trigger] self.cells@[i]).required_actions@.len() == 0
    }

    /// `after` is `before` with the request `action` applied: a kill empties its cell, a spawn
    /// fills its cell only if that cell is empty, and nothing else changes.
    pub open spec fn request_applied(before: &Grid, after: &Grid, action: ParticleAction) -> bool {
        &&& after.wf()
        &&& after.width == before.width
        &&& after.height == before.height
        &&& after.generation == before.generation
        &&& after.sweep_log == before.sweep_log
        &&& after.cells@.len() == before.cells@.len()
        &&& after.cells_to_draw@ == if action is KillParticle && before.in_bounds(action_cell(action)) {
            before.cells_to_draw@.update(before.cell(action_cell(action)), true)
        } else if action is SpawnParticle && before.in_bounds(action_cell(action)) && before.id_at(action_cell(action)) == EMPTY_ID {
            before.cells_to_draw@.update(before.cell(action_cell(action)), true)
        } else {
            before.cells_to_draw@
        }
        &&& match action {
            ParticleAction::KillParticle { position } => before.in_bounds(position) ==> after.id_at(position) == EMPTY_ID,
            ParticleAction::SpawnParticle { species, position } => before.in_bounds(position) && before.id_at(position) == EMPTY_ID
                ==> after.id_at(position) == species_id(species),
            _ => after.cells@ == before.cells@,
        }
        &&& forall|p: Position| #[trigger] before.in_bounds(p) && p != action_cell(action)
            ==> after.cells@[before.cell(p)] == before.cells@[before.cell(p)]
        &&& action is SpawnParticle && before.in_bounds(action_cell(action)) && before.id_at(action_cell(action)) != EMPTY_ID
            ==> after.cells@ == before.cells@
    }

    /// `steps` goes from one grid to the next by applying the requests of `pending` in order.
    pub open spec fn requests_applied(steps: Seq<Grid>, pending: Seq<ParticleAction>) -> bool {
        &&& steps.len() == pending.len() + 1
        &&& forall|k: int| 0 <= k < pending.len() ==> #[trigger] Grid::request_applied(&steps[k], &steps[k + 1], pending[k])
    }

    /// Applies one kill or spawn request: a kill empties its cell, a spawn fills its cell only
    /// if that cell is empty. Requests for cells off the grid, and moves and colors, change nothing.
    pub fn apply_action(&mut self, action: ParticleAction)
        requires
            old(self).wf(),
        ensures
            Grid::request_applied(old(self), final(self), action),
    {
        match action {
            ParticleAction::KillParticle { position } => {
                if self.contains(position) {
                    self.set(position, Particle::new_empty(position));
                }
            },
            ParticleAction::SpawnParticle { species, position } => {
                if self.contains(position) && self.is_empty(position) {
                    let particle = Particle::of_species(species, position, &mut self.rng);
                    self.set(position, particle);
                }
            },
            _ => {},
        }
        proof {
            assert forall|p: Position| #[trigger] old(self).in_bounds(p) && p != action_cell(action)
                implies self.cells@[old(self).cell(p)] == old(self).cells@[old(self).cell(p)] by {
                if old(self).in_bounds(action_cell(action)) {
                    lemma_cell_index_injective(p, action_cell(action), self.width as int, self.height as int);
                }
                lemma_cell_index_bounds(p, self.width as int, self.height as int);
            }
        }
    }

    /// After the sweep: gathers every pending kill and spawn request, stamps every particle
    /// with the sweep's number, then applies the requests in row-major order.
    fn settle(&mut self)
        requires
            old(self).wf_shape(),
        ensures
            final(self).wf(),
            final(self).width == old(self).width,
            final(self).height == old(self).height,
            final(self).generation == old(self).generation,
            final(self).sweep_log == old(self).sweep_log,
            old(self).nothing_pending() ==> {
                &&& final(self).ids() == old(self).ids()
                &&& final(self).all_conserve_matter() == old(self).all_conserve_matter()
            },
            exists|steps: Seq<Grid>| {
                &&& #[trigger] Grid::requests_applied(steps, pending_of(old(self).cells@))
                &&& cleared(old(self).cells@, steps[0].cells@, old(self).generation)
                &&& steps[0].cells_to_draw@ == old(self).cells_to_draw@
                &&& *final(self) == steps.last()
            },
    {
        let n = self.cells.len();
        let mut pending: Vec<ParticleAction> = Vec::new();
        let mut i: usize = 0;
        while i < n
            invariant
                0 <= i <= n,
                n == self.cells@.len(),
                self.wf_shape(),
                self.width == old(self).width,
                self.height == old(self).height,
                self.generation == old(self).generation,
                self.sweep_log == old(self).sweep_log,
                self.ids() == old(self).ids(),
                forall|k: int| 0 <= k < n ==> (#[trigger] self.cells@[k]).behaviors == old(self).cells@[k].behaviors,
                forall|k: int| 0 <= k < i ==> (#[trigger] self.cells@[k]).generation == self.generation,
                forall|k: int| 0 <= k < i ==> (#[trigger] self.cells@[k]).required_actions@.len() == 0,
                forall|k: int| i <= k < n ==> #[trigger] self.cells@[k] == old(self).cells@[k],
                forall|k: int| 0 <= k < i ==> #[trigger] self.cells@[k].state == old(self).cells@[k].state,
                forall|k: int| 0 <= k < i ==> #[trigger] self.cells@[k].modified == old(self).cells@[k].modified,
                old(self).nothing_pending() ==> pending@.len() == 0,
                pending@ == pending_of(old(self).cells@.subrange(0, i as int)),
                n == old(self).cells@.len(),
                self.cells_to_draw == old(self).cells_to_draw,
            decreases n - i,
        {
            let mut taken = self.cells[i].take_required_actions();
            self.cells[i].generation = self.generation;
            proof {
                let sub = old(self).cells@.subrange(0, i as int + 1);
                assert(sub.drop_last() =~= old(self).cells@.subrange(0, i as int));
                assert(sub.last() == old(self).cells@[i as int]);
            }
            pending.append(&mut taken);
            proof {
                assert(self.ids() =~= old(self).ids());
            }
            i = i + 1;
        }
        proof {
            assert(old(self).cells@.subrange(0, n as int) =~= old(self).cells@);
            assert(self.wf());
        }
        proof {
            if old(self).all_conserve_matter() {
                assert forall|k: int| 0 <= k < n implies (#[trigger] self.cells@[k]).conserves_matter() by {
                    assert(self.cells@[k].behaviors == old(self).cells@[k].behaviors);
                    assert(old(self).cells@[k].conserves_matter());
                }
            }
            if self.all_conserve_matter() {
                assert forall|k: int| 0 <= k < n implies (#[trigger] old(self).cells@[k]).conserves_matter() by {
                    assert(self.cells@[k].behaviors == old(self).cells@[k].behaviors);
                    assert(self.cells@[k].conserves_matter());
                }
            }
        }
        let ghost gathered = self.cells@;
        let ghost mut steps: Seq<Grid> = seq![*self];
        let m = pending.len();
        let mut k: usize = 0;
        while k < m
            invariant
                0 <= k <= m,
                m == pending@.len(),
                pending@ == pending_of(old(self).cells@),
                steps.len() == k + 1,
                steps[0].cells@ == gathered,
                steps[0].cells_to_draw@ == old(self).cells_to_draw@,
                steps.last() == *self,
                forall|j: int| 0 <= j < k ==> #[trigger] Grid::request_applied(&steps[j], &steps[j + 1], pending@[j]),
                m == 0 ==> self.cells@ == gathered,
                self.sweep_log == old(self).sweep_log,
                self.wf(),
                self.width == old(self).width,
                self.height == old(self).height,
                self.generation == old(self).generation,
                old(self).nothing_pending() ==> m == 0,
            decreases m - k,
        {
            self.apply_action(pending[k]);
            proof {
                steps = steps.push(*self);
            }
            k = k + 1;
        }
        proof {
            assert(Grid::requests_applied(steps, pending_of(old(self).cells@)));
            assert(cleared(old(self).cells@, steps[0].cells@, old(self).generation));
        }
    }

    /// One frame. First a sweep over the rows from the bottom up, each row scanned in a
    /// direction drawn for it (`sweep_order`): at each cell, a particle not yet stamped with
    /// this sweep's number is stamped and updated once on the snapshot, and if it moved to
    /// another cell of the grid the two cells trade particles; changed cells are marked for
    /// redraw and no mark is removed. A stamped particle is left alone, so each particle runs
    /// its own update, the only time it moves itself, at most once per sweep; the log of
    /// updated particles, each named by its cell at the start of the sweep, holds no name
    /// twice. Only then are the kill and spawn requests that the sweep left in the particles
    /// applied, cell after cell in row-major order, each as `apply_action` does.
    ///
    /// When no particle can ask for a kill or a spawn, the sweep only moves particles about:
    /// the particle ids form the same multiset before and after.
    pub fn update(&mut self, dt: u32)
        requires
            old(self).wf(),
        ensures
            final(self).wf(),
            final(self).width == old(self).width,
            final(self).height == old(self).height,
            final(self).cells@.len() == old(self).cells@.len(),
            final(self).generation == old(self).generation.wrapping_add(1),
            final(self).sweep_log@.no_duplicates(),
            forall|e: int| #[trigger] final(self).sweep_log@.contains(e) ==> 0 <= e < old(self).cells@.len(),
            old(self).all_conserve_matter() ==> final(self).ids().to_multiset() == old(self).ids().to_multiset(),
            old(self).all_conserve_matter() ==> final(self).all_conserve_matter(),
            exists|dirs: Seq<bool>, grids: Seq<Grid>, snaps: Seq<Snapshot>, steps: Seq<Grid>| {
                &&& #[trigger] Grid::swept_by(old(self), grids, snaps, dirs, dt as int, final(self).generation)
                &&& #[trigger] Grid::requests_applied(steps, pending_of(grids.last().cells@))
                &&& cleared(grids.last().cells@, steps[0].cells@, final(self).generation)
                &&& steps[0].cells_to_draw@ == grids.last().cells_to_draw@
                &&& final(self).cells@ == steps.last().cells@
                &&& final(self).cells_to_draw@ == steps.last().cells_to_draw@
            },
    {
        let mut snapshot = self.snapshot();
        let current = self.generation.wrapping_add(1);
        self.generation = current;
        self.sweep_log = Ghost(Seq::empty());
        let mut origin: Ghost<Seq<int>> = Ghost(Seq::new(self.cells@.len(), |i: int| i));
        let ghost mut dirs: Seq<bool> = Seq::empty();
        let ghost mut order: Seq<Position> = Seq::empty();
        let ghost mut grids: Seq<Grid> = seq![*self];
        let ghost mut snaps: Seq<Snapshot> = seq![snapshot];
        proof {
            assert(current != old(self).generation);
            assert(self.tracks(origin@, current));
        }
        let mut y = self.height;
        while y > 0
            invariant
                0 <= y <= self.height,
                self.wf_shape(),
                self.width == old(self).width,
                self.height == old(self).height,
                self.cells@.len() == old(self).cells@.len(),
                self.generation == current,
                snapshot.wf(),
                snapshot.width == self.width,
                snapshot.height == self.height,
                self.tracks(origin@, current),
                dirs.len() == self.height - y,
                order == sweep_order(self.width as int, self.height as int, dirs),
                grids.len() == order.len() + 1,
                snaps.len() == order.len() + 1,
                grids[0].cells@ == old(self).cells@,
                grids[0].cells_to_draw@ == old(self).cells_to_draw@,
                grids[0].width == old(self).width,
                grids[0].height == old(self).height,
                old(self).shows(&snaps[0]),
                grids.last() == *self,
                snaps.last() == snapshot,
                forall|q: int| 0 <= q < order.len() ==> #[trigger] Grid::visit_step(&grids[q], &grids[q + 1], &snaps[q], &snaps[q + 1],
                    order[q], dt as int, current),
                old(self).all_conserve_matter() ==> {
                    &&& self.all_conserve_matter()
                    &&& self.nothing_pending()
                    &&& self.ids().to_multiset() == old(self).ids().to_multiset()
                },
            decreases y,
        {
            y = y - 1;
            let forward = coin(&mut self.rng);
            proof {
                let prev = grids;
                let n = order.len();
                grids = grids.update(n as int, *self);
                assert forall|q: int| 0 <= q < n implies #[trigger] Grid::visit_step(&grids[q], &grids[q + 1], &snaps[q], &snaps[q + 1],
                    order[q], dt as int, current) by {
                    assert(Grid::visit_step(&prev[q], &prev[q + 1], &snaps[q], &snaps[q + 1], order[q], dt as int, current));
                    if q + 1 == n {
                        let i = prev[q].cell(order[q]);
                        if prev[q].cells@[i].generation != current {
                            let (qq, m) = choose|qq: Particle, m: bool| #[trigger] Particle::updated(&stamped(prev[q].cells@[i], current), &qq,
                                order[q], dt as int, &snaps[q], &snaps[q + 1], m) && Grid::placed(&prev[q], &prev[q + 1], i, qq, m, order[q]);
                            assert(Grid::placed(&grids[q], &grids[q + 1], i, qq, m, order[q]));
                        }
                    }
                }
            }
            let mut k: i32 = 0;
            while k < self.width
                invariant
                    0 <= y < self.height,
                    0 <= k <= self.width,
                    self.wf_shape(),
                    self.width == old(self).width,
                    self.height == old(self).height,
                    self.cells@.len() == old(self).cells@.len(),
                    self.generation == current,
                    snapshot.wf(),
                    snapshot.width == self.width,
                    snapshot.height == self.height,
                    self.tracks(origin@, current),
                    dirs.len() == self.height - y - 1,
                    order == sweep_order(self.width as int, self.height as int, dirs)
                        + row_scan(self.width as int, y as int, forward).take(k as int),
                    grids.len() == order.len() + 1,
                    snaps.len() == order.len() + 1,
                    grids[0].cells@ == old(self).cells@,
                    grids[0].cells_to_draw@ == old(self).cells_to_draw@,
                    grids[0].width == old(self).width,
                    grids[0].height == old(self).height,
                    old(self).shows(&snaps[0]),
                    grids.last() == *self,
                    snaps.last() == snapshot,
                    forall|q: int| 0 <= q < order.len() ==> #[trigger] Grid::visit_step(&grids[q], &grids[q + 1], &snaps[q], &snaps[q + 1],
                        order[q], dt as int, current),
                    old(self).all_conserve_matter() ==> {
                        &&& self.all_conserve_matter()
                        &&& self.nothing_pending()
                        &&& self.ids().to_multiset() == old(self).ids().to_multiset()
                    },
                decreases self.width - k,
            {
                let x = if forward { k } else { self.width - 1 - k };
                origin = self.visit((x, y), dt, &mut snapshot, current, origin);
                proof {
                    let scan = row_scan(self.width as int, y as int, forward);
                    assert(scan.take(k as int + 1) =~= scan.take(k as int).push((x, y)));
                    order = order.push((x, y));
                    grids = grids.push(*self);
                    snaps = snaps.push(snapshot);
                }
                k = k + 1;
            }
            proof {
                let scan = row_scan(self.width as int, y as int, forward);
                assert(scan.take(self.width as int) =~= scan);
                assert(dirs.push(forward).drop_last() =~= dirs);
                dirs = dirs.push(forward);
            }
        }
        proof {
            assert(Grid::swept_by(old(self), grids, snaps, dirs, dt as int, current));
        }
        self.settle();

    }
}

proof fn lemma_dirty_prefix_empty(g: &Grid, k: int)
    requires
        0 <= k <= g.cells@.len(),
        g.cells_to_draw@.len() == g.cells@.len(),
    ensures
        g.dirty_prefix(k).len() == 0 <==> forall|i: int| 0 <= i < k ==> !(#[trigger] g.cells_to_draw@[i]),
    decreases k,
{
    if k > 0 {
        lemma_dirty_prefix_empty(g, k - 1);
        if g.dirty_prefix(k).len() == 0 {
            assert forall|i: int| 0 <= i < k implies !(#[trigger] g.cells_to_draw@[i]) by {
                if i < k - 1 {
                    assert(!g.cells_to_draw@[i]);
                }
            }
        }
    }
}

/// Drawing consumes the redraw set: a draw hands out something exactly when some cell is
/// marked, and the grid that a draw leaves behind (same cells, nothing marked) hands out
/// nothing on the next draw.
pub proof fn lemma_draw_twice(first: &Grid, second: &Grid)
    requires
        first.wf(),
        second.cells == first.cells,
        second.width == first.width,
        second.cells_to_draw@.len() == first.cells_to_draw@.len(),
        forall|i: int| 0 <= i < second.cells_to_draw@.len() ==> !(#[trigger] second.cells_to_draw@[i]),
    ensures
        first.to_draw().len() > 0 <==> exists|i: int| 0 <= i < first.cells@.len() && #[trigger] first.cells_to_draw@[i],
        second.to_draw().len() == 0,
{
    lemma_dirty_prefix_empty(first, first.cells@.len() as int);
    lemma_dirty_prefix_empty(second, second.cells@.len() as int);
}

/// The cell of each row-major index lies on the grid and has that index.
pub proof fn lemma_position_of(k: int, width: int, height: int)
    requires
        0 <= k < width * height,
        0 <= width <= i32::MAX,
        0 <= height <= i32::MAX,
    ensures
        on_grid(position_of(k, width), width, height),
        cell_index(position_of(k, width), width) == k,
{
    assert(width > 0) by (nonlinear_arith)
        requires 0 <= k < width * height, width >= 0, height >= 0;
    vstd::arithmetic::div_mod::lemma_fundamental_div_mod(k, width);
    assert(0 <= k % width < width) by {
        vstd::arithmetic::div_mod::lemma_mod_bound(k, width);
    }
    assert(0 <= k / width < height) by (nonlinear_arith)
        requires 0 <= k < width * height, width > 0, k == width * (k / width) + k % width, 0 <= k % width < width;
    let p = position_of(k, width);
    assert(p.0 as int == k % width);
    assert(p.1 as int == k / width);
    assert((k / width) * width + k % width == k) by (nonlinear_arith)
        requires k == width * (k / width) + k % width;
}

proof fn lemma_push_contains(s: Seq<int>, a: int, x: int)
    ensures
        s.push(a).contains(x) <==> (s.contains(x) || x == a),
{
    if s.contains(x) {
        let k = choose|k: int| 0 <= k < s.len() && s[k] == x;
        assert(s.push(a)[k] == x);
    }
    if x == a {
        assert(s.push(a)[s.len() as int] == a);
    }
    if s.push(a).contains(x) {
        let k = choose|k: int| 0 <= k < s.push(a).len() && s.push(a)[k] == x;
        if k < s.len() {
            assert(s[k] == x);
        }
    }
}

/// Writes off the grid are dropped: a brush whose disc holds no cell of the grid leaves every
/// cell as it was, as `set` does for a position off the grid.
pub proof fn lemma_brush_off_grid(before: &Grid, after: &Grid, center: Position, brush: BrushSettings)
    requires
        before.wf(),
        after.painted_from(before, center, brush),
        forall|p: Position| #[trigger] before.in_bounds(p) ==> !in_disc(center, brush.size as int, p),
    ensures
        after.cells@ == before.cells@,
        after.cells_to_draw@ == before.cells_to_draw@,
{
    assert forall|k: int| 0 <= k < before.cells@.len() implies #[trigger] after.cells@[k] == before.cells@[k] by {
        lemma_position_of(k, before.width as int, before.height as int);
        let p = position_of(k, before.width as int);
        assert(before.in_bounds(p));
    }
    assert forall|k: int| 0 <= k < before.cells_to_draw@.len() implies #[trigger] after.cells_to_draw@[k] == before.cells_to_draw@[k] by {
        lemma_position_of(k, before.width as int, before.height as int);
        let p = position_of(k, before.width as int);
        assert(before.in_bounds(p));
    }
    assert(after.cells@ =~= before.cells@);
    assert(after.cells_to_draw@ =~= before.cells_to_draw@);
}

} // verus!
