//! The chunk grid: for each chunk of the world, the characters and vehicles
//! that were last seen in it.

use vstd::prelude::*;
use crate::geom::Vec2i;
use crate::ids::NpcId;
use crate::ids::VehicleId;

verus! {

/// What one chunk of the grid holds.
pub struct GridCell {
    pub npcs: Vec<NpcId>,
    pub vehicles: Vec<VehicleId>,
}

impl Default for GridCell {
    fn default() -> (c: Self)
        ensures
            c.npcs@ == Seq::<NpcId>::empty(),
            c.vehicles@ == Seq::<VehicleId>::empty(),
    {
        GridCell { npcs: Vec::new(), vehicles: Vec::new() }
    }
}

/// A rectangle of cells, one for each chunk, stored row by row.
pub struct NpcGrid {
    pub size: Vec2i,
    pub cells: Vec<GridCell>,
}

/// The test that holds of every character but `id`.
pub open spec fn other_npc(id: NpcId) -> spec_fn(NpcId) -> bool {
    |x: NpcId| x != id
}

/// The test that holds of every vehicle but `id`.
pub open spec fn other_vehicle(id: VehicleId) -> spec_fn(VehicleId) -> bool {
    |x: VehicleId| x != id
}

/// The list `s` without every occurrence of `id`.
pub open spec fn without_npc(s: Seq<NpcId>, id: NpcId) -> Seq<NpcId> {
    s.filter(other_npc(id))
}

/// The list `s` without every occurrence of `id`.
pub open spec fn without_vehicle(s: Seq<VehicleId>, id: VehicleId) -> Seq<VehicleId> {
    s.filter(other_vehicle(id))
}

/// A list without `id` holds what the list held, but for `id`.
pub proof fn lemma_without_npc_contains(s: Seq<NpcId>, id: NpcId, x: NpcId)
    ensures
        without_npc(s, id).contains(x) <==> (s.contains(x) && x != id),
{
    let pred = other_npc(id);
    if without_npc(s, id).contains(x) {
        s.lemma_filter_contains_rev(pred, x);
        let i = choose|i: int| 0 <= i < s.filter(pred).len() && s.filter(pred)[i] == x;
        s.lemma_filter_pred(pred, i);
    }
    if s.contains(x) && x != id {
        let i = choose|i: int| 0 <= i < s.len() && s[i] == x;
        s.lemma_filter_contains(pred, i);
    }
}

/// A list without `id` holds what the list held, but for `id`.
pub proof fn lemma_without_vehicle_contains(s: Seq<VehicleId>, id: VehicleId, x: VehicleId)
    ensures
        without_vehicle(s, id).contains(x) <==> (s.contains(x) && x != id),
{
    let pred = other_vehicle(id);
    if without_vehicle(s, id).contains(x) {
        s.lemma_filter_contains_rev(pred, x);
        let i = choose|i: int| 0 <= i < s.filter(pred).len() && s.filter(pred)[i] == x;
        s.lemma_filter_pred(pred, i);
    }
    if s.contains(x) && x != id {
        let i = choose|i: int| 0 <= i < s.len() && s[i] == x;
        s.lemma_filter_contains(pred, i);
    }
}

/// Removes every occurrence of `id` from `list`, keeping the order of the
/// rest.
pub fn remove_npc_from(list: &mut Vec<NpcId>, id: NpcId)
    ensures
        final(list)@ == without_npc(old(list)@, id),
        !final(list)@.contains(id),
        forall|x: NpcId| x != id ==> (final(list)@.contains(x) <==> old(list)@.contains(x)),
{
    let mut kept: Vec<NpcId> = Vec::new();
    let mut i: usize = 0;
    let ghost pred = other_npc(id);
    let ghost initial = list@;
    while i < list.len()
        invariant
            i <= list.len(),
            list@ == initial,
            pred == other_npc(id),
            kept@ == list@.take(i as int).filter(pred),
        decreases list.len() - i,
    {
        let x = list[i];
        proof {
            reveal(Seq::filter);
            assert(list@.take(i + 1).drop_last() == list@.take(i as int));
        }
        if x.0 != id.0 {
            kept.push(x);
        }
        i = i + 1;
    }
    proof {
        assert(list@.take(list.len() as int) == list@);
        assert forall|x: NpcId| x != id implies (kept@.contains(x) <==> old(list)@.contains(
            x,
        )) by {
            if kept@.contains(x) {
                old(list)@.lemma_filter_contains_rev(pred, x);
            }
            if old(list)@.contains(x) {
                let i = choose|i: int| 0 <= i < old(list)@.len() && old(list)@[i] == x;
                old(list)@.lemma_filter_contains(pred, i);
            }
        }
        if kept@.contains(id) {
            old(list)@.lemma_filter_contains_rev(pred, id);
        }
    }
    *list = kept;
}

/// Removes every occurrence of `id` from `list`, keeping the order of the
/// rest.
pub fn remove_vehicle_from(list: &mut Vec<VehicleId>, id: VehicleId)
    ensures
        final(list)@ == without_vehicle(old(list)@, id),
        !final(list)@.contains(id),
        forall|x: VehicleId| x != id ==> (final(list)@.contains(x) <==> old(list)@.contains(x)),
{
    let mut kept: Vec<VehicleId> = Vec::new();
    let mut i: usize = 0;
    let ghost pred = other_vehicle(id);
    let ghost initial = list@;
    while i < list.len()
        invariant
            i <= list.len(),
            list@ == initial,
            pred == other_vehicle(id),
            kept@ == list@.take(i as int).filter(pred),
        decreases list.len() - i,
    {
        let x = list[i];
        proof {
            reveal(Seq::filter);
            assert(list@.take(i + 1).drop_last() == list@.take(i as int));
        }
        if x.0 != id.0 {
            kept.push(x);
        }
        i = i + 1;
    }
    proof {
        assert(list@.take(list.len() as int) == list@);
        assert forall|x: VehicleId| x != id implies (kept@.contains(x) <==> old(list)@.contains(
            x,
        )) by {
            if kept@.contains(x) {
                old(list)@.lemma_filter_contains_rev(pred, x);
            }
            if old(list)@.contains(x) {
                let i = choose|i: int| 0 <= i < old(list)@.len() && old(list)@[i] == x;
                old(list)@.lemma_filter_contains(pred, i);
            }
        }
        if kept@.contains(id) {
            let i = choose|i: int| 0 <= i < kept@.len() && kept@[i] == id;
            old(list)@.lemma_filter_pred(pred, i);
        }
    }
    *list = kept;
}

impl NpcGrid {
    /// The grid covers `size.x` times `size.y` chunks and has a cell for each.
    pub open spec fn wf(&self) -> bool {
        &&& 0 <= self.size.x
        &&& 0 <= self.size.y
        &&& self.cells@.len() == self.size.x * self.size.y
    }

    /// Whether the chunk `c` lies on the grid.
    pub open spec fn in_bounds(&self, c: Vec2i) -> bool {
        0 <= c.x < self.size.x && 0 <= c.y < self.size.y
    }

    /// Where the cell of chunk `c` is stored.
    pub open spec fn index_of(&self, c: Vec2i) -> int {
        c.y * self.size.x + c.x
    }

    /// The characters listed for chunk `c`: none where `c` is off the grid.
    pub open spec fn npcs_at(&self, c: Vec2i) -> Seq<NpcId> {
        if self.in_bounds(c) {
            self.cells@[self.index_of(c)].npcs@
        } else {
            Seq::empty()
        }
    }

    /// The vehicles listed for chunk `c`: none where `c` is off the grid.
    pub open spec fn vehicles_at(&self, c: Vec2i) -> Seq<VehicleId> {
        if self.in_bounds(c) {
            self.cells@[self.index_of(c)].vehicles@
        } else {
            Seq::empty()
        }
    }

    /// The cells of chunks on the grid have places of their own in the store.
    pub proof fn lemma_index(&self, c: Vec2i)
        requires
            self.wf(),
            self.in_bounds(c),
        ensures
            0 <= self.index_of(c) < self.cells@.len(),
            forall|d: Vec2i|
                self.in_bounds(d) && self.index_of(d) == self.index_of(c) ==> d == c,
    {
        let w = self.size.x as int;
        let h = self.size.y as int;
        let (x, y) = (c.x as int, c.y as int);
        assert(y * w + x < h * w) by (nonlinear_arith)
            requires
                0 <= x < w,
                0 <= y < h,
        ;
        assert(0 <= y * w) by (nonlinear_arith)
            requires
                0 <= y,
                0 <= w,
        ;
        assert(h * w == w * h) by (nonlinear_arith);
        assert forall|d: Vec2i|
            self.in_bounds(d) && self.index_of(d) == self.index_of(c) implies d == c by {
            let (dx, dy) = (d.x as int, d.y as int);
            assert(dy == y) by (nonlinear_arith)
                requires
                    0 <= x < w,
                    0 <= dx < w,
                    dy * w + dx == y * w + x,
            ;
        }
    }

    /// A grid without chunks.
    pub fn empty() -> (g: Self)
        ensures
            g.wf(),
            g.size == (Vec2i { x: 0, y: 0 }),
            g.cells@.len() == 0,
    {
        NpcGrid { size: Vec2i { x: 0, y: 0 }, cells: Vec::new() }
    }

    /// A grid of `size.x` times `size.y` chunks in which nothing is listed.
    pub fn new(size: Vec2i) -> (g: Self)
        requires
            0 <= size.x,
            0 <= size.y,
            size.x * size.y <= usize::MAX,
        ensures
            g.wf(),
            g.size == size,
            forall|c: Vec2i| g.npcs_at(c) == Seq::<NpcId>::empty(),
            forall|c: Vec2i| g.vehicles_at(c) == Seq::<VehicleId>::empty(),
    {
        let n: usize = (size.x as usize) * (size.y as usize);
        let mut cells: Vec<GridCell> = Vec::new();
        let mut i: usize = 0;
        while i < n
            invariant
                i <= n,
                cells@.len() == i,
                forall|j: int|
                    0 <= j < i ==> (#[trigger] cells@[j]).npcs@ == Seq::<NpcId>::empty()
                        && cells@[j].vehicles@ == Seq::<VehicleId>::empty(),
            decreases n - i,
        {
            cells.push(GridCell::default());
            i = i + 1;
        }
        let g = NpcGrid { size, cells };
        proof {
            assert forall|c: Vec2i| g.npcs_at(c) == Seq::<NpcId>::empty() by {
                if g.in_bounds(c) {
                    g.lemma_index(c);
                }
            }
            assert forall|c: Vec2i| g.vehicles_at(c) == Seq::<VehicleId>::empty() by {
                if g.in_bounds(c) {
                    g.lemma_index(c);
                }
            }
        }
        g
    }

    /// Where the cell of chunk `c` is stored, if `c` lies on the grid.
    pub fn slot(&self, c: Vec2i) -> (r: Option<usize>)
        requires
            self.wf(),
        ensures
            r == (if self.in_bounds(c) {
                Some(self.index_of(c) as usize)
            } else {
                None
            }),
            self.in_bounds(c) ==> 0 <= self.index_of(c) < self.cells@.len(),
            r matches Some(i) ==> i as int == self.index_of(c),
    {
        if 0 <= c.x && c.x < self.size.x && 0 <= c.y && c.y < self.size.y {
            let n: usize = self.cells.len();
            let w: usize = self.size.x as usize;
            proof {
                self.lemma_index(c);
                assert(0 <= c.y * w <= self.index_of(c)) by (nonlinear_arith)
                    requires
                        0 <= c.y,
                        0 <= c.x,
                        0 <= w,
                        self.index_of(c) == c.y * w + c.x,
                ;
            }
            let idx: usize = (c.y as usize) * w + (c.x as usize);
            Some(idx)
        } else {
            None
        }
    }

    /// The cell of chunk `c`, if `c` lies on the grid.
    pub fn get(&self, c: Vec2i) -> (r: Option<&GridCell>)
        requires
            self.wf(),
        ensures
            match r {
                Some(cell) => self.in_bounds(c) && *cell == self.cells@[self.index_of(c)],
                None => !self.in_bounds(c),
            },
    {
        match self.slot(c) {
            Some(i) => Some(&self.cells[i]),
            None => None,
        }
    }

    /// Lists the character `id` for chunk `c`, after those already listed.
    /// Off the grid nothing is listed.
    pub fn add_npc(&mut self, c: Vec2i, id: NpcId)
        requires
            old(self).wf(),
        ensures
            final(self).wf(),
            final(self).size == old(self).size,
            final(self).npcs_at(c) == (if old(self).in_bounds(c) {
                old(self).npcs_at(c).push(id)
            } else {
                old(self).npcs_at(c)
            }),
            forall|d: Vec2i| d != c ==> final(self).npcs_at(d) == old(self).npcs_at(d),
            forall|d: Vec2i| final(self).vehicles_at(d) == old(self).vehicles_at(d),
    {
        match self.slot(c) {
            Some(i) => {
                proof {
                    self.lemma_index(c);
                }
                self.cells[i].npcs.push(id);
                proof {
                    assert forall|d: Vec2i| d != c implies self.npcs_at(d) == old(self).npcs_at(d) by {
                        if old(self).in_bounds(d) {
                            old(self).lemma_index(d);
                        }
                    }
                    assert forall|d: Vec2i| self.vehicles_at(d) == old(self).vehicles_at(
                        d,
                    ) by {
                        if old(self).in_bounds(d) {
                            old(self).lemma_index(d);
                        }
                    }
                }
            },
            None => {},
        }
    }

    /// Takes the character `id` off the list of chunk `c`.
    pub fn remove_npc(&mut self, c: Vec2i, id: NpcId)
        requires
            old(self).wf(),
        ensures
            final(self).wf(),
            final(self).size == old(self).size,
            final(self).npcs_at(c) == without_npc(old(self).npcs_at(c), id),
            !final(self).npcs_at(c).contains(id),
            forall|x: NpcId|
                x != id ==> (final(self).npcs_at(c).contains(x) <==> old(self).npcs_at(
                    c,
                ).contains(x)),
            forall|d: Vec2i| d != c ==> final(self).npcs_at(d) == old(self).npcs_at(d),
            forall|d: Vec2i| final(self).vehicles_at(d) == old(self).vehicles_at(d),
    {
        match self.slot(c) {
            Some(i) => {
                proof {
                    self.lemma_index(c);
                }
                remove_npc_from(&mut self.cells[i].npcs, id);
                proof {
                    assert forall|d: Vec2i| d != c implies self.npcs_at(d) == old(self).npcs_at(d) by {
                        if old(self).in_bounds(d) {
                            old(self).lemma_index(d);
                        }
                    }
                    assert forall|d: Vec2i| self.vehicles_at(d) == old(self).vehicles_at(
                        d,
                    ) by {
                        if old(self).in_bounds(d) {
                            old(self).lemma_index(d);
                        }
                    }
                }
            },
            None => {
                proof {
                    reveal(Seq::filter);
                }
            },
        }
    }
    /// Lists the vehicle `id` for chunk `c`, after those already listed. Off
    /// the grid nothing is listed.
    pub fn add_vehicle(&mut self, c: Vec2i, id: VehicleId)
        requires
            old(self).wf(),
        ensures
            final(self).wf(),
            final(self).size == old(self).size,
            final(self).vehicles_at(c) == (if old(self).in_bounds(c) {
                old(self).vehicles_at(c).push(id)
            } else {
                old(self).vehicles_at(c)
            }),
            forall|d: Vec2i| d != c ==> final(self).vehicles_at(d) == old(self).vehicles_at(d),
            forall|d: Vec2i| final(self).npcs_at(d) == old(self).npcs_at(d),
    {
        match self.slot(c) {
            Some(i) => {
                proof {
                    self.lemma_index(c);
                }
                self.cells[i].vehicles.push(id);
                proof {
                    assert forall|d: Vec2i| d != c implies self.vehicles_at(d) == old(self).vehicles_at(d) by {
                        if old(self).in_bounds(d) {
                            old(self).lemma_index(d);
                        }
                    }
                    assert forall|d: Vec2i| self.npcs_at(d) == old(self).npcs_at(d) by {
                        if old(self).in_bounds(d) {
                            old(self).lemma_index(d);
                        }
                    }
                }
            },
            None => {},
        }
    }

    /// Takes the vehicle `id` off the list of chunk `c`.
    pub fn remove_vehicle(&mut self, c: Vec2i, id: VehicleId)
        requires
            old(self).wf(),
        ensures
            final(self).wf(),
            final(self).size == old(self).size,
            final(self).vehicles_at(c) == without_vehicle(old(self).vehicles_at(c), id),
            !final(self).vehicles_at(c).contains(id),
            forall|d: Vec2i| d != c ==> final(self).vehicles_at(d) == old(self).vehicles_at(d),
            forall|d: Vec2i| final(self).npcs_at(d) == old(self).npcs_at(d),
    {
        match self.slot(c) {
            Some(i) => {
                proof {
                    self.lemma_index(c);
                }
                remove_vehicle_from(&mut self.cells[i].vehicles, id);
                proof {
                    assert forall|d: Vec2i| d != c implies self.vehicles_at(d) == old(self).vehicles_at(d) by {
                        if old(self).in_bounds(d) {
                            old(self).lemma_index(d);
                        }
                    }
                    assert forall|d: Vec2i| self.npcs_at(d) == old(self).npcs_at(d) by {
                        if old(self).in_bounds(d) {
                            old(self).lemma_index(d);
                        }
                    }
                }
            },
            None => {
                proof {
                    reveal(Seq::filter);
                }
            },
        }
    }
}

} // verus!