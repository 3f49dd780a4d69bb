//! A fixed-size, dense, row-major grid of cells, each pairing a position with
//! owned contents.

use vstd::prelude::*;

use crate::vector::IVec2;
use crate::vector::Vector;

verus! {

/// The row-major storage index of `pos` in a grid `width` cells wide.
pub open spec fn slot_index(pos: IVec2, width: int) -> int {
    pos.y * width + pos.x
}

/// True when `pos` lies inside a grid of dimensions `size`: both axes
/// nonnegative and strictly below the respective dimension.
pub open spec fn pos_in_size(pos: IVec2, size: IVec2) -> bool {
    0 <= pos.x < size.x && 0 <= pos.y < size.y
}

/// The number of cells a `fill` appends: `width * height` for positive
/// dimensions, and none for a degenerate size.
pub open spec fn fill_count(size: IVec2) -> int {
    if size.x > 0 && size.y > 0 {
        size.x * size.y
    } else {
        0
    }
}

/// What `fill` stores for the `k`-th row-major slot of a grid `width` cells
/// wide: a cell at position `(k % width, k / width)` whose contents are a
/// duplicate of `item`.
pub open spec fn filled_cell_ok<T: Clone>(c: GridItem<T>, k: int, width: int, item: T) -> bool {
    c.spec_pos() == (IVec2 { x: (k % width) as i32, y: (k / width) as i32 }) && cloned(
        item,
        c.spec_contents(),
    )
}

/// The four orthogonal neighbor positions of `p`, in the order the adjacency
/// queries test them: right, up, left, down.
pub open spec fn orth_neighbors(p: IVec2) -> Seq<IVec2> {
    seq![
        IVec2 { x: (p.x + 1) as i32, y: p.y },
        IVec2 { x: p.x, y: (p.y - 1) as i32 },
        IVec2 { x: (p.x - 1) as i32, y: p.y },
        IVec2 { x: p.x, y: (p.y + 1) as i32 },
    ]
}

/// The eight offsets the diagonal adjacency queries test, applied to `p`, in
/// the order they are tested. The entry shifting left and down,
/// `(p.x - 1, p.y + 1)`, appears twice, and no entry shifts both axes up, so
/// only seven distinct positions are tested; this offset list is a quirk the
/// container has always had, and it is kept here literally.
pub open spec fn diag_neighbors(p: IVec2) -> Seq<IVec2> {
    seq![
        IVec2 { x: (p.x + 1) as i32, y: p.y },
        IVec2 { x: (p.x + 1) as i32, y: (p.y - 1) as i32 },
        IVec2 { x: p.x, y: (p.y - 1) as i32 },
        IVec2 { x: (p.x - 1) as i32, y: (p.y + 1) as i32 },
        IVec2 { x: (p.x - 1) as i32, y: p.y },
        IVec2 { x: (p.x - 1) as i32, y: (p.y + 1) as i32 },
        IVec2 { x: p.x, y: (p.y + 1) as i32 },
        IVec2 { x: (p.x + 1) as i32, y: (p.y + 1) as i32 },
    ]
}

/// The predicate an adjacency query filters with: the cell sits at one of
/// the `targets` positions.
pub open spec fn at_one_of<T>(targets: Seq<IVec2>) -> spec_fn(GridItem<T>) -> bool {
    |c: GridItem<T>| targets.contains(c.spec_pos())
}

/// A sequence of borrowed cells, as the cell values it refers to.
pub open spec fn deref_cells<T>(s: Seq<&GridItem<T>>) -> Seq<GridItem<T>> {
    s.map_values(|c: &GridItem<T>| *c)
}

/// A sequence of exclusively borrowed cells, as the cell values it refers
/// to when handed out.
pub open spec fn deref_cells_mut<T>(s: Seq<&mut GridItem<T>>) -> Seq<GridItem<T>> {
    s.map_values(|c: &mut GridItem<T>| *c)
}

/// Whether `cp` occurs among `targets`.
fn position_matches(targets: &Vec<IVec2>, cp: IVec2) -> (hit: bool)
    ensures
        hit == targets@.contains(cp),
{
    let mut t: usize = 0;
    while t < targets.len()
        invariant
            t <= targets@.len(),
            forall|u: int| 0 <= u < t ==> targets@[u] != cp,
        decreases targets@.len() - t,
    {
        if targets[t] == cp {
            return true;
        }
        t = t + 1;
    }
    false
}

/// Extending a prefix by one element extends its filtered subsequence by that
/// element exactly when the predicate accepts it.
proof fn lemma_filter_take_step<A>(s: Seq<A>, pred: spec_fn(A) -> bool, i: int)
    requires
        0 <= i < s.len(),
    ensures
        pred(s[i]) ==> s.take(i + 1).filter(pred) == s.take(i).filter(pred).push(s[i]),
        !pred(s[i]) ==> s.take(i + 1).filter(pred) == s.take(i).filter(pred),
{
    reveal(Seq::filter);
    assert(s.take(i + 1).drop_last() =~= s.take(i));
    assert(s.take(i + 1).last() == s[i]);
}

/// The predicate selecting positions inside a grid of dimensions `size`.
pub open spec fn in_size(size: IVec2) -> spec_fn(IVec2) -> bool {
    |q: IVec2| pos_in_size(q, size)
}

/// Filtering a longer prefix never yields a shorter result.
proof fn lemma_filter_take_len_mono<A>(s: Seq<A>, pred: spec_fn(A) -> bool, a: int, b: int)
    requires
        0 <= a <= b <= s.len(),
    ensures
        s.take(a).filter(pred).len() <= s.take(b).filter(pred).len(),
    decreases b - a,
{
    if a < b {
        lemma_filter_take_step(s, pred, b - 1);
        lemma_filter_take_len_mono(s, pred, a, b - 1);
    }
}

/// A filtered sequence has exactly one element per matching index: when the
/// predicate holds exactly at the strictly increasing indices `ks`, the
/// filtered sequence has length `ks.len()`.
proof fn lemma_filter_count_by_indices<A>(s: Seq<A>, pred: spec_fn(A) -> bool, ks: Seq<int>)
    requires
        forall|a: int, b: int| 0 <= a < b < ks.len() ==> ks[a] < ks[b],
        forall|a: int| 0 <= a < ks.len() ==> 0 <= #[trigger] ks[a] < s.len(),
        forall|i: int| 0 <= i < s.len() ==> (pred(#[trigger] s[i]) <==> ks.contains(i)),
    ensures
        s.filter(pred).len() == ks.len(),
    decreases s.len(),
{
    reveal(Seq::filter);
    if s.len() == 0 {
        if ks.len() > 0 {
            assert(0 <= ks[0] && ks[0] < s.len());
            assert(false);
        }
    } else {
        let l = s.len() - 1;
        let s0 = s.drop_last();
        assert(s.filter(pred) == if pred(s[l]) {
            s0.filter(pred).push(s[l])
        } else {
            s0.filter(pred)
        });
        if pred(s[l]) {
            assert(ks.contains(l));
            let a = choose|a: int| 0 <= a < ks.len() && ks[a] == l;
            assert(a == ks.len() - 1) by {
                if a < ks.len() - 1 {
                    assert(ks[a] < ks[ks.len() - 1]);
                }
            }
            let ks0 = ks.drop_last();
            assert forall|i: int|
                0 <= i < s0.len() implies (pred(#[trigger] s0[i]) <==> ks0.contains(i)) by {
                assert(s0[i] == s[i]);
                if pred(s[i]) {
                    let b = choose|b: int| 0 <= b < ks.len() && ks[b] == i;
                    assert(b < ks.len() - 1);
                    assert(ks0[b] == i);
                }
                if ks0.contains(i) {
                    let b = choose|b: int| 0 <= b < ks0.len() && ks0[b] == i;
                    assert(ks[b] == i);
                }
            }
            lemma_filter_count_by_indices(s0, pred, ks0);
        } else {
            assert(!ks.contains(l));
            assert forall|a: int| 0 <= a < ks.len() implies 0 <= #[trigger] ks[a] < s0.len() by {
                assert(ks[a] != l);
            }
            assert forall|i: int|
                0 <= i < s0.len() implies (pred(#[trigger] s0[i]) <==> ks.contains(i)) by {
                assert(s0[i] == s[i]);
            }
            lemma_filter_count_by_indices(s0, pred, ks);
        }
    }
}

/// A row-major index built from coordinates below `2^31` stays well inside
/// the `u64` range.
proof fn lemma_slot_fits_u64(y: int, w: int, x: int)
    requires
        0 <= y < 0x80000000,
        0 <= w < 0x80000000,
        0 <= x < 0x80000000,
    ensures
        0 <= y * w + x < 0x4000000080000000,
{
    assert(0 <= y * w < 0x4000000000000000) by (nonlinear_arith)
        requires 0 <= y < 0x80000000, 0 <= w < 0x80000000;
}

/// One grid slot: a position fixed at creation, and mutable owned contents.
#[derive(Clone, Debug)]
pub struct GridItem<T> {
    pos: IVec2,
    contents: T,
}

impl<T> GridItem<T> {
    /// The cell's position, as contracts see it.
    pub closed spec fn spec_pos(&self) -> IVec2 {
        self.pos
    }

    /// The cell's contents, as contracts see it.
    pub closed spec fn spec_contents(&self) -> T {
        self.contents
    }

    /// Pair a position with its contents. The position is set once here and
    /// never mutated afterwards.
    pub fn new(pos: IVec2, contents: T) -> (r: GridItem<T>)
        ensures
            r.spec_pos() == pos,
            r.spec_contents() == contents,
    {
        GridItem { pos, contents }
    }

    /// Read the cell's contents.
    pub fn contents(&self) -> (r: &T)
        ensures
            *r == self.spec_contents(),
    {
        &self.contents
    }

    /// Exclusive access to the cell's contents; the position stays fixed.
    pub fn contents_mut(&mut self) -> (r: &mut T)
        ensures
            *r == old(self).spec_contents(),
            final(self).spec_contents() == *final(r),
            final(self).spec_pos() == old(self).spec_pos(),
    {
        &mut self.contents
    }

    /// Read the cell's position.
    pub fn pos(&self) -> (r: &IVec2)
        ensures
            *r == self.spec_pos(),
    {
        &self.pos
    }
}

/// A fixed-size dense grid: a width and height, and a row-major sequence of
/// cells with at most `width * height` entries.
pub struct Grid<T> {
    size: IVec2,
    grid: Vec<GridItem<T>>,
}

impl<T> Grid<T> {
    /// The grid's dimensions, as contracts see them: `x` is the width and `y`
    /// the height.
    pub closed spec fn spec_size(&self) -> IVec2 {
        self.size
    }

    /// The stored cells in storage order, as contracts see them.
    pub closed spec fn cells(&self) -> Seq<GridItem<T>> {
        self.grid@
    }

    /// The grid's width, widened for index arithmetic.
    pub open spec fn spec_width(&self) -> int {
        self.spec_size().x as int
    }

    /// The grid's height, widened for index arithmetic.
    pub open spec fn spec_height(&self) -> int {
        self.spec_size().y as int
    }

    /// Create an empty grid of the given dimensions. Never fails and performs
    /// no validation: a zero or negative component simply yields a degenerate
    /// grid that no position can address.
    pub fn new(size: IVec2) -> (r: Grid<T>)
        ensures
            r.spec_size() == size,
            r.cells() == Seq::<GridItem<T>>::empty(),
    {
        Grid { size, grid: Vec::new() }
    }

    /// Append a cell to the backing store. The caller is trusted to supply
    /// cells in row-major order with matching positions; nothing is validated
    /// here, so an out-of-discipline push shifts the addressing of every later
    /// slot.
    pub fn push(&mut self, tile: GridItem<T>)
        ensures
            final(self).spec_size() == old(self).spec_size(),
            final(self).cells() == old(self).cells().push(tile),
    {
        self.grid.push(tile);
    }

    /// Read the grid's width.
    pub fn width(&self) -> (r: &i32)
        ensures
            *r == self.spec_size().x,
    {
        &self.size.x
    }

    /// Read the grid's height.
    pub fn height(&self) -> (r: &i32)
        ensures
            *r == self.spec_size().y,
    {
        &self.size.y
    }

    /// Read the grid's dimensions.
    pub fn size(&self) -> (r: &IVec2)
        ensures
            *r == self.spec_size(),
    {
        &self.size
    }

    /// All stored cells in storage order (row-major when the grid was
    /// populated by `fill` or by disciplined `push`es).
    pub fn tiles(&self) -> (r: &Vec<GridItem<T>>)
        ensures
            r@ == self.cells(),
    {
        &self.grid
    }

    /// Exclusive access to the stored cells in storage order. The dimensions
    /// stay fixed; the stored cells become whatever the caller leaves behind
    /// through the returned handle.
    pub fn tiles_mut(&mut self) -> (r: &mut Vec<GridItem<T>>)
        ensures
            (*r)@ == old(self).cells(),
            final(self).cells() == (*final(r))@,
            final(self).spec_size() == old(self).spec_size(),
    {
        &mut self.grid
    }

    /// The stored cells, in storage order, whose position equals one of the
    /// four orthogonal neighbors of `pos`. Neighbor positions that fall
    /// outside the populated cells are simply absent from the result.
    pub fn adjacent(&self, pos: &IVec2) -> (r: Vec<&GridItem<T>>)
        requires
            i32::MIN < pos.x < i32::MAX,
            i32::MIN < pos.y < i32::MAX,
        ensures
            deref_cells(r@) == self.cells().filter(at_one_of(orth_neighbors(*pos))),
    {
        let a0 = IVec2::new(1, 0) + pos;
        let a1 = IVec2::new(0, -1) + pos;
        let a2 = IVec2::new(-1, 0) + pos;
        let a3 = IVec2::new(0, 1) + pos;
        proof {
            assert(orth_neighbors(*pos) =~= seq![a0, a1, a2, a3]);
        }
        let ghost pred = at_one_of::<T>(orth_neighbors(*pos));
        let mut out: Vec<&GridItem<T>> = Vec::new();
        let mut i: usize = 0;
        while i < self.grid.len()
            invariant
                i <= self.grid.len(),
                orth_neighbors(*pos) == seq![a0, a1, a2, a3],
                pred == at_one_of::<T>(orth_neighbors(*pos)),
                deref_cells(out@) == self.cells().take(i as int).filter(pred),
            decreases self.grid.len() - i,
        {
            let c = &self.grid[i];
            let cp = *c.pos();
            let ghost prev = deref_cells(out@);
            proof {
                let ns = orth_neighbors(*pos);
                assert(ns[0] == a0 && ns[1] == a1 && ns[2] == a2 && ns[3] == a3);
            }
            if cp == a0 || cp == a1 || cp == a2 || cp == a3 {
                out.push(c);
                proof {
                    assert(deref_cells(out@) =~= prev.push(self.cells()[i as int]));
                }
            }
            proof {
                lemma_filter_take_step(self.cells(), pred, i as int);
            }
            i = i + 1;
        }
        proof {
            assert(self.cells().take(self.grid.len() as int) =~= self.cells());
        }
        out
    }

    /// The stored cells, in storage order, whose position equals one of the
    /// eight surrounding offsets that `diag_neighbors` lists (with that
    /// list's literal quirks).
    pub fn adjacent_diagonal(&self, pos: &IVec2) -> (r: Vec<&GridItem<T>>)
        requires
            i32::MIN < pos.x < i32::MAX,
            i32::MIN < pos.y < i32::MAX,
        ensures
            deref_cells(r@) == self.cells().filter(at_one_of(diag_neighbors(*pos))),
    {
        let d0 = IVec2::new(1, 0) + pos;
        let d1 = IVec2::new(1, -1) + pos;
        let d2 = IVec2::new(0, -1) + pos;
        let d3 = IVec2::new(-1, 1) + pos;
        let d4 = IVec2::new(-1, 0) + pos;
        let d5 = IVec2::new(-1, 1) + pos;
        let d6 = IVec2::new(0, 1) + pos;
        let d7 = IVec2::new(1, 1) + pos;
        proof {
            assert(diag_neighbors(*pos) =~= seq![d0, d1, d2, d3, d4, d5, d6, d7]);
        }
        let ghost pred = at_one_of::<T>(diag_neighbors(*pos));
        let mut out: Vec<&GridItem<T>> = Vec::new();
        let mut i: usize = 0;
        while i < self.grid.len()
            invariant
                i <= self.grid.len(),
                diag_neighbors(*pos) == seq![d0, d1, d2, d3, d4, d5, d6, d7],
                pred == at_one_of::<T>(diag_neighbors(*pos)),
                deref_cells(out@) == self.cells().take(i as int).filter(pred),
            decreases self.grid.len() - i,
        {
            let c = &self.grid[i];
            let cp = *c.pos();
            let ghost prev = deref_cells(out@);
            proof {
                let ns = diag_neighbors(*pos);
                assert(ns[0] == d0 && ns[1] == d1 && ns[2] == d2 && ns[3] == d3);
                assert(ns[4] == d4 && ns[5] == d5 && ns[6] == d6 && ns[7] == d7);
            }
            if cp == d0 || cp == d1 || cp == d2 || cp == d3 || cp == d4 || cp == d5 || cp == d6
                || cp == d7 {
                out.push(c);
                proof {
                    assert(deref_cells(out@) =~= prev.push(self.cells()[i as int]));
                }
            }
            proof {
                lemma_filter_take_step(self.cells(), pred, i as int);
            }
            i = i + 1;
        }
        proof {
            assert(self.cells().take(self.grid.len() as int) =~= self.cells());
        }
        out
    }

    /// Exclusive access to the stored cells, in storage order, whose
    /// position equals one of the four orthogonal neighbors of `pos`: the
    /// mutable variant of `adjacent`. The references are pairwise disjoint
    /// by construction; each matched cell ends up holding whatever the
    /// caller leaves in its reference, and every other cell and the
    /// dimensions are untouched.
    pub fn adjacent_mut(&mut self, pos: &IVec2) -> (r: Vec<&mut GridItem<T>>)
        requires
            i32::MIN < pos.x < i32::MAX,
            i32::MIN < pos.y < i32::MAX,
        ensures
            final(self).spec_size() == old(self).spec_size(),
            final(self).cells().len() == old(self).cells().len(),
            deref_cells_mut(r@) == old(self).cells().filter(at_one_of(orth_neighbors(*pos))),
            (forall|i: int|
                #![auto]
                0 <= i < old(self).cells().len() && !orth_neighbors(*pos).contains(
                    old(self).cells()[i].spec_pos(),
                ) ==> final(self).cells()[i] == old(self).cells()[i]),
            (forall|i: int, k: int|
                #![auto]
                0 <= i < old(self).cells().len() && orth_neighbors(*pos).contains(
                    old(self).cells()[i].spec_pos(),
                ) && k == old(self).cells().take(i).filter(
                    at_one_of(orth_neighbors(*pos)),
                ).len() ==> final(self).cells()[i] == *final(r@[k])),
    {
        let mut targets: Vec<IVec2> = Vec::new();
        targets.push(IVec2::new(1, 0) + pos);
        targets.push(IVec2::new(0, -1) + pos);
        targets.push(IVec2::new(-1, 0) + pos);
        targets.push(IVec2::new(0, 1) + pos);
        proof {
            assert(targets@ =~= orth_neighbors(*pos));
        }
        self.collect_matching_mut(&targets)
    }

    /// Exclusive access to the stored cells, in storage order, whose
    /// position equals one of the eight surrounding offsets that
    /// `diag_neighbors` lists (with that list's literal quirks): the mutable
    /// variant of `adjacent_diagonal`.
    pub fn adjacent_diagonal_mut(&mut self, pos: &IVec2) -> (r: Vec<&mut GridItem<T>>)
        requires
            i32::MIN < pos.x < i32::MAX,
            i32::MIN < pos.y < i32::MAX,
        ensures
            final(self).spec_size() == old(self).spec_size(),
            final(self).cells().len() == old(self).cells().len(),
            deref_cells_mut(r@) == old(self).cells().filter(at_one_of(diag_neighbors(*pos))),
            (forall|i: int|
                #![auto]
                0 <= i < old(self).cells().len() && !diag_neighbors(*pos).contains(
                    old(self).cells()[i].spec_pos(),
                ) ==> final(self).cells()[i] == old(self).cells()[i]),
            (forall|i: int, k: int|
                #![auto]
                0 <= i < old(self).cells().len() && diag_neighbors(*pos).contains(
                    old(self).cells()[i].spec_pos(),
                ) && k == old(self).cells().take(i).filter(
                    at_one_of(diag_neighbors(*pos)),
                ).len() ==> final(self).cells()[i] == *final(r@[k])),
    {
        let mut targets: Vec<IVec2> = Vec::new();
        targets.push(IVec2::new(1, 0) + pos);
        targets.push(IVec2::new(1, -1) + pos);
        targets.push(IVec2::new(0, -1) + pos);
        targets.push(IVec2::new(-1, 1) + pos);
        targets.push(IVec2::new(-1, 0) + pos);
        targets.push(IVec2::new(-1, 1) + pos);
        targets.push(IVec2::new(0, 1) + pos);
        targets.push(IVec2::new(1, 1) + pos);
        proof {
            assert(targets@ =~= diag_neighbors(*pos));
        }
        self.collect_matching_mut(&targets)
    }

    /// Exclusive access to every stored cell whose position occurs among
    /// `targets`, in storage order. The cells handed out are exactly those a
    /// matching immutable query would return; each ends up holding whatever
    /// the caller leaves in its reference, and every other cell and the
    /// dimensions are untouched.
    fn collect_matching_mut(&mut self, targets: &Vec<IVec2>) -> (r: Vec<&mut GridItem<T>>)
        ensures
            final(self).spec_size() == old(self).spec_size(),
            final(self).cells().len() == old(self).cells().len(),
            deref_cells_mut(r@) == old(self).cells().filter(at_one_of(targets@)),
            (forall|i: int|
                #![auto]
                0 <= i < old(self).cells().len() && !targets@.contains(
                    old(self).cells()[i].spec_pos(),
                ) ==> final(self).cells()[i] == old(self).cells()[i]),
            (forall|i: int, k: int|
                #![auto]
                0 <= i < old(self).cells().len() && targets@.contains(
                    old(self).cells()[i].spec_pos(),
                ) && k == old(self).cells().take(i).filter(at_one_of(targets@)).len()
                    ==> final(self).cells()[i] == *final(r@[k])),
    {
        let ghost cells0 = old(self).cells();
        let ghost n = cells0.len() as int;
        let ghost pred = at_one_of::<T>(targets@);
        let mut out: Vec<&mut GridItem<T>> = Vec::new();
        let mut rest: &mut [GridItem<T>] = self.grid.as_mut_slice();
        let ghost fw: Seq<GridItem<T>> = final(rest)@;
        let ghost mut acc: Seq<GridItem<T>> = fw.take(0);
        proof {
            assert(acc =~= Seq::<GridItem<T>>::empty());
        }
        while rest.len() > 0
            invariant
                cells0 == old(self).cells(),
                n == cells0.len(),
                pred == at_one_of::<T>(targets@),
                acc.len() + rest@.len() == n,
                rest@ == cells0.skip(acc.len() as int),
                out@.len() == cells0.take(acc.len() as int).filter(pred).len(),
                deref_cells_mut(out@) == cells0.take(acc.len() as int).filter(pred),
                fw == acc + final(rest)@,
                forall|i: int|
                    #![auto]
                    0 <= i < acc.len() && !pred(cells0[i]) ==> acc[i] == cells0[i],
                forall|i: int, k: int|
                    #![auto]
                    0 <= i < acc.len() && pred(cells0[i]) && k == cells0.take(i).filter(
                        pred,
                    ).len() ==> acc[i] == *final(out@[k]),
            decreases rest@.len(),
        {
            let ghost j = acc.len() as int;
            let ghost rest_snap = rest@;
            let (head_s, tail) = rest.split_at_mut(1);
            let h = head_s.first_mut().unwrap();
            proof {
                assert(cells0.skip(j)[0] == cells0[j]);
                assert(*h == cells0[j]);
                lemma_filter_take_step(cells0, pred, j);
            }
            let cp = *h.pos();
            let hit = position_matches(targets, cp);
            let ghost prev_vals = deref_cells_mut(out@);
            let ghost k_new = out@.len() as int;
            if hit {
                out.push(h);
                proof {
                    acc = acc.push(*final(out@[k_new]));
                    assert(deref_cells_mut(out@) =~= prev_vals.push(cells0[j]));
                }
            } else {
                proof {
                    acc = acc.push(*h);
                }
            }
            rest = tail;
            proof {
                assert(rest@ == rest_snap.subrange(1, rest_snap.len() as int));
                assert forall|i: int| 0 <= i < rest@.len() implies rest@[i] == cells0.skip(
                    j + 1,
                )[i] by {
                    assert(rest@[i] == rest_snap[i + 1]);
                    assert(cells0.skip(j)[i + 1] == cells0[j + 1 + i]);
                    assert(cells0.skip(j + 1)[i] == cells0[j + 1 + i]);
                }
                assert(rest@ =~= cells0.skip(j + 1));
                assert(fw =~= acc + final(rest)@);
                assert forall|i: int, k: int|
                    0 <= i < acc.len() && pred(cells0[i]) && k == cells0.take(i).filter(
                        pred,
                    ).len() implies acc[i] == *final(out@[k]) by {
                    if i < j {
                        lemma_filter_take_step(cells0, pred, i);
                        lemma_filter_take_len_mono(cells0, pred, i + 1, j);
                        assert(k < k_new);
                    }
                }
            }
        }
        proof {
            assert(cells0.take(n) =~= cells0);
            assert(fw =~= acc);
        }
        out
    }

    /// True when the stored cells follow the row-major discipline that
    /// `fill` and disciplined `push`es establish: the cell at storage index
    /// `i` carries position `(i % width, i / width)`.
    pub open spec fn row_major(&self) -> bool {
        forall|i: int|
            0 <= i < self.cells().len() ==> (#[trigger] self.cells()[i]).spec_pos() == (IVec2 {
                x: (i % self.spec_width()) as i32,
                y: (i / self.spec_width()) as i32,
            })
    }

    /// Look up the cell stored at `pos` by its row-major index. Returns the
    /// cell when `pos` lies inside the grid's dimensions and its slot is
    /// populated, and nothing for every out-of-range or unpopulated position.
    pub fn tile(&self, pos: &IVec2) -> (r: Option<&GridItem<T>>)
        ensures
            r is Some <==> (pos_in_size(*pos, self.spec_size()) && slot_index(
                *pos,
                self.spec_width(),
            ) < self.cells().len()),
            (r matches Some(c) ==> *c == self.cells()[slot_index(*pos, self.spec_width())]),
    {
        if 0 <= pos.x && pos.x < self.size.x && 0 <= pos.y && pos.y < self.size.y {
            proof {
                lemma_slot_fits_u64(pos.y as int, self.size.x as int, pos.x as int);
            }
            let idx: u64 = (pos.y as u64) * (self.size.x as u64) + (pos.x as u64);
            if idx < self.grid.len() as u64 {
                Some(&self.grid[idx as usize])
            } else {
                None
            }
        } else {
            None
        }
    }

    /// Exclusive access to the cell stored at `pos`, under the same
    /// addressing as `tile`; every other cell and the dimensions are
    /// untouched.
    pub fn tile_mut(&mut self, pos: &IVec2) -> (r: Option<&mut GridItem<T>>)
        ensures
            r is Some <==> (pos_in_size(*pos, old(self).spec_size()) && slot_index(
                *pos,
                old(self).spec_width(),
            ) < old(self).cells().len()),
            (r matches Some(c) ==> {
                &&& *c == old(self).cells()[slot_index(*pos, old(self).spec_width())]
                &&& final(self).cells() == old(self).cells().update(
                    slot_index(*pos, old(self).spec_width()),
                    *final(c),
                )
                &&& final(self).spec_size() == old(self).spec_size()
            }),
            r is None ==> *final(self) == *old(self),
    {
        if 0 <= pos.x && pos.x < self.size.x && 0 <= pos.y && pos.y < self.size.y {
            proof {
                lemma_slot_fits_u64(pos.y as int, self.size.x as int, pos.x as int);
            }
            let idx: u64 = (pos.y as u64) * (self.size.x as u64) + (pos.x as u64);
            if idx < self.grid.len() as u64 {
                Some(&mut self.grid[idx as usize])
            } else {
                None
            }
        } else {
            None
        }
    }
}

impl<T: Clone> Grid<T> {
    /// Populate every row-major slot: for each `y` in `[0, height)` and each
    /// `x` in `[0, width)`, in that nested order, append a cell at `(x, y)`
    /// holding a duplicate of `item`. Called on an empty grid this fills it
    /// completely and establishes the row-major discipline; called on a
    /// partially populated grid it appends the same cells after the existing
    /// ones, shifting their addressing.
    pub fn fill(&mut self, item: T)
        ensures
            final(self).spec_size() == old(self).spec_size(),
            final(self).cells().len() == old(self).cells().len() + fill_count(
                old(self).spec_size(),
            ),
            (forall|i: int|
                0 <= i < old(self).cells().len() ==> final(self).cells()[i] == old(
                    self,
                ).cells()[i]),
            (forall|k: int|
                0 <= k < fill_count(old(self).spec_size()) ==> filled_cell_ok(
                    #[trigger] final(self).cells()[old(self).cells().len() + k],
                    k,
                    old(self).spec_width(),
                    item,
                )),
            (forall|p: IVec2|
                #![auto]
                pos_in_size(p, old(self).spec_size()) ==> {
                    let c = final(self).cells()[old(self).cells().len() + slot_index(
                        p,
                        old(self).spec_width(),
                    )];
                    c.spec_pos() == p && cloned(item, c.spec_contents())
                }),
    {
        let w = self.size.x;
        let h = self.size.y;
        if w <= 0 || h <= 0 {
            return;
        }
        let ghost old_len = self.grid@.len() as int;
        let mut y: i32 = 0;
        while y < h
            invariant
                0 <= y <= h,
                0 < w,
                0 < h,
                w == old(self).spec_size().x,
                h == old(self).spec_size().y,
                self.spec_size() == old(self).spec_size(),
                old_len == old(self).cells().len(),
                self.cells().len() == old_len + y * w,
                forall|i: int| 0 <= i < old_len ==> self.cells()[i] == old(self).cells()[i],
                forall|k: int|
                    0 <= k < y * w ==> filled_cell_ok(
                        #[trigger] self.cells()[old_len + k],
                        k,
                        w as int,
                        item,
                    ),
            decreases h - y,
        {
            let mut x: i32 = 0;
            while x < w
                invariant
                    0 <= y < h,
                    0 <= x <= w,
                    0 < w,
                    w == old(self).spec_size().x,
                    h == old(self).spec_size().y,
                    self.spec_size() == old(self).spec_size(),
                    old_len == old(self).cells().len(),
                    self.cells().len() == old_len + y * w + x,
                    forall|i: int| 0 <= i < old_len ==> self.cells()[i] == old(self).cells()[i],
                    forall|k: int|
                        0 <= k < y * w + x ==> filled_cell_ok(
                            #[trigger] self.cells()[old_len + k],
                            k,
                            w as int,
                            item,
                        ),
                decreases w - x,
            {
                proof {
                    vstd::arithmetic::div_mod::lemma_fundamental_div_mod_converse(
                        y * w + x,
                        w as int,
                        y as int,
                        x as int,
                    );
                }
                self.push(GridItem::new(IVec2::new(x, y), item.clone()));
                x = x + 1;
            }
            proof {
                vstd::arithmetic::mul::lemma_mul_is_distributive_add_other_way(
                    w as int,
                    y as int,
                    1,
                );
            }
            y = y + 1;
        }
        proof {
            vstd::arithmetic::mul::lemma_mul_is_commutative(w as int, h as int);
            assert(self.cells().len() == old_len + fill_count(old(self).spec_size()));
            assert forall|p: IVec2| pos_in_size(p, old(self).spec_size()) implies {
                let c = self.cells()[old_len + slot_index(p, old(self).spec_width())];
                c.spec_pos() == p && cloned(item, c.spec_contents())
            } by {
                lemma_slot_index_range(p, old(self).spec_size());
            };
        }
    }
}

/// Row-major addressing sends an in-range position to an index in
/// `[0, width * height)`, from which integer division and remainder by the
/// width recover the position's two axes.
pub proof fn lemma_slot_index_range(p: IVec2, size: IVec2)
    requires
        pos_in_size(p, size),
    ensures
        0 <= slot_index(p, size.x as int) < size.x * size.y,
        slot_index(p, size.x as int) % (size.x as int) == p.x as int,
        slot_index(p, size.x as int) / (size.x as int) == p.y as int,
{
    let w = size.x as int;
    let h = size.y as int;
    let xi = p.x as int;
    let yi = p.y as int;
    assert(0 <= yi * w + xi && yi * w + xi < w * h) by (nonlinear_arith)
        requires 0 <= xi < w, 0 <= yi < h;
    vstd::arithmetic::div_mod::lemma_fundamental_div_mod_converse(yi * w + xi, w, yi, xi);
}

/// Addressing: in a row-major grid, the slot of an in-range position `p`,
/// when populated, holds a cell that carries exactly the position `p` — so a
/// lookup of `p` returns the cell that was pushed for `p`.
pub proof fn lemma_addressing<T>(g: Grid<T>, p: IVec2)
    requires
        g.row_major(),
        pos_in_size(p, g.spec_size()),
        slot_index(p, g.spec_width()) < g.cells().len(),
    ensures
        g.cells()[slot_index(p, g.spec_width())].spec_pos() == p,
{
    lemma_slot_index_range(p, g.spec_size());
}

/// The number of orthogonal neighbors of `p` that lie inside `size`, as the
/// length of the filtered neighbor list.
proof fn lemma_orth_filter_len(p: IVec2, size: IVec2)
    ensures
        orth_neighbors(p).filter(in_size(size)).len() == (if pos_in_size(
            orth_neighbors(p)[0],
            size,
        ) {
            1int
        } else {
            0int
        }) + (if pos_in_size(orth_neighbors(p)[1], size) {
            1int
        } else {
            0int
        }) + (if pos_in_size(orth_neighbors(p)[2], size) {
            1int
        } else {
            0int
        }) + (if pos_in_size(orth_neighbors(p)[3], size) {
            1int
        } else {
            0int
        }),
{
    reveal_with_fuel(Seq::filter, 6);
    let ns = orth_neighbors(p);
    let f = in_size(size);
    assert(ns.drop_last() =~= seq![ns[0], ns[1], ns[2]]);
    assert(seq![ns[0], ns[1], ns[2]].drop_last() =~= seq![ns[0], ns[1]]);
    assert(seq![ns[0], ns[1]].drop_last() =~= seq![ns[0]]);
    assert(seq![ns[0]].drop_last() =~= Seq::<IVec2>::empty());
    assert(forall|q: IVec2| #[trigger] f(q) == pos_in_size(q, size));
}

/// Orthogonal adjacency count: a fully populated row-major grid stores
/// exactly one cell for each orthogonal neighbor of `p` that lies inside the
/// grid, so an orthogonal adjacency query matches exactly as many cells as
/// `p` has in-grid neighbors — fewer than four on edges and corners.
pub proof fn lemma_adjacent_count<T>(g: Grid<T>, p: IVec2)
    requires
        g.row_major(),
        g.spec_width() > 0,
        g.spec_height() > 0,
        g.cells().len() == g.spec_width() * g.spec_height(),
        i32::MIN < p.x < i32::MAX,
        i32::MIN < p.y < i32::MAX,
    ensures
        g.cells().filter(at_one_of(orth_neighbors(p))).len() == orth_neighbors(p).filter(
            in_size(g.spec_size()),
        ).len(),
{
    let w = g.spec_width();
    let h = g.spec_height();
    let size = g.spec_size();
    let ns = orth_neighbors(p);
    let pred = at_one_of::<T>(ns);
    let xi = p.x as int;
    let yi = p.y as int;
    let s = yi * w + xi;

    let n_r = ns[0];
    let n_u = ns[1];
    let n_l = ns[2];
    let n_d = ns[3];
    let b_r = pos_in_size(n_r, size);
    let b_u = pos_in_size(n_u, size);
    let b_l = pos_in_size(n_l, size);
    let b_d = pos_in_size(n_d, size);

    assert((yi - 1) * w == yi * w - w) by (nonlinear_arith);
    assert((yi + 1) * w == yi * w + w) by (nonlinear_arith);
    assert(slot_index(n_u, w) == s - w);
    assert(slot_index(n_l, w) == s - 1);
    assert(slot_index(n_r, w) == s + 1);
    assert(slot_index(n_d, w) == s + w);

    if b_u {
        lemma_slot_index_range(n_u, size);
    }
    if b_l {
        lemma_slot_index_range(n_l, size);
    }
    if b_r {
        lemma_slot_index_range(n_r, size);
    }
    if b_d {
        lemma_slot_index_range(n_d, size);
    }

    // matching slots in increasing storage order: up, left, right, down
    let ks = (if b_u {
        seq![s - w]
    } else {
        Seq::<int>::empty()
    }) + (if b_l {
        seq![s - 1]
    } else {
        Seq::<int>::empty()
    }) + (if b_r {
        seq![s + 1]
    } else {
        Seq::<int>::empty()
    }) + (if b_d {
        seq![s + w]
    } else {
        Seq::<int>::empty()
    });

    // a present up or down neighbor pins p's column inside the grid, so a
    // present left or right neighbor beside it forces a width of at least 2
    assert(b_u && b_l ==> w >= 2);
    assert(b_r && b_d ==> w >= 2);
    let iu: int = if b_u { 1 } else { 0 };
    let il: int = if b_l { 1 } else { 0 };
    let ir: int = if b_r { 1 } else { 0 };
    assert(b_u ==> ks[0] == s - w);
    assert(b_l ==> ks[iu] == s - 1);
    assert(b_r ==> ks[iu + il] == s + 1);
    assert(b_d ==> ks[iu + il + ir] == s + w);
    assert(forall|a: int, b: int| 0 <= a < b < ks.len() ==> ks[a] < ks[b]);
    assert(forall|a: int| 0 <= a < ks.len() ==> 0 <= #[trigger] ks[a] < g.cells().len());

    broadcast use vstd::arithmetic::div_mod::lemma_div_pos_is_pos;

    assert forall|i: int|
        0 <= i < g.cells().len() implies (pred(#[trigger] g.cells()[i]) <==> ks.contains(i)) by {
        if ks.contains(i) {
            let a = choose|a: int| 0 <= a < ks.len() && ks[a] == i;
            if b_u && i == s - w {
                lemma_addressing(g, n_u);
                assert(ns[1] == n_u);
            } else if b_l && i == s - 1 {
                lemma_addressing(g, n_l);
                assert(ns[2] == n_l);
            } else if b_r && i == s + 1 {
                lemma_addressing(g, n_r);
                assert(ns[0] == n_r);
            } else {
                assert(b_d && i == s + w);
                lemma_addressing(g, n_d);
                assert(ns[3] == n_d);
            }
            assert(pred(g.cells()[i]));
        }
        if pred(g.cells()[i]) {
            let q = g.cells()[i].spec_pos();
            vstd::arithmetic::div_mod::lemma_fundamental_div_mod(i, w);
            vstd::arithmetic::div_mod::lemma_multiply_divide_lt(i, w, h);
            assert(w * (i / w) == (i / w) * w) by (nonlinear_arith);
            assert(pos_in_size(q, size));
            assert(slot_index(q, w) == i);
            let k = choose|k: int| 0 <= k < ns.len() && ns[k] == q;
            if k == 0 {
                assert(i == s + 1 && b_r);
            } else if k == 1 {
                assert(i == s - w && b_u);
            } else if k == 2 {
                assert(i == s - 1 && b_l);
            } else {
                assert(i == s + w && b_d);
            }
            assert(ks.contains(i));
        }
    }
    lemma_filter_count_by_indices(g.cells(), pred, ks);
    lemma_orth_filter_len(p, size);
}

/// Orthogonal adjacency count at an interior position: all four neighbors
/// lie inside the grid, so the query matches exactly four cells.
pub proof fn lemma_adjacent_count_interior<T>(g: Grid<T>, p: IVec2)
    requires
        g.row_major(),
        g.cells().len() == g.spec_width() * g.spec_height(),
        0 < p.x as int,
        p.x as int + 1 < g.spec_width(),
        0 < p.y as int,
        p.y as int + 1 < g.spec_height(),
    ensures
        g.cells().filter(at_one_of(orth_neighbors(p))).len() == 4,
{
    lemma_adjacent_count(g, p);
    lemma_orth_filter_len(p, g.spec_size());
}

/// A grid whose cells all follow the `fill` characterization — the `k`-th
/// cell sits at position `(k % width, k / width)` — is row-major, so the
/// addressing and distinctness facts apply to a grid filled from empty.
pub proof fn lemma_filled_is_row_major<T: Clone>(g: Grid<T>, item: T)
    requires
        forall|k: int|
            0 <= k < g.cells().len() ==> filled_cell_ok(
                #[trigger] g.cells()[k],
                k,
                g.spec_width(),
                item,
            ),
    ensures
        g.row_major(),
{
}

/// In a row-major grid holding at most `width * height` cells, two different
/// storage slots always hold cells with different positions.
pub proof fn lemma_row_major_distinct<T>(g: Grid<T>, i: int, j: int)
    requires
        g.row_major(),
        g.spec_width() > 0,
        g.cells().len() <= g.spec_width() * g.spec_height(),
        0 <= i < g.cells().len(),
        0 <= j < g.cells().len(),
        i != j,
    ensures
        g.cells()[i].spec_pos() != g.cells()[j].spec_pos(),
{
    let w = g.spec_width();
    let h = g.spec_height();
    broadcast use vstd::arithmetic::div_mod::lemma_div_pos_is_pos;

    vstd::arithmetic::div_mod::lemma_fundamental_div_mod(i, w);
    vstd::arithmetic::div_mod::lemma_fundamental_div_mod(j, w);
    vstd::arithmetic::div_mod::lemma_multiply_divide_lt(i, w, h);
    vstd::arithmetic::div_mod::lemma_multiply_divide_lt(j, w, h);
    if g.cells()[i].spec_pos() == g.cells()[j].spec_pos() {
        assert(i % w == j % w);
        assert(i / w == j / w);
        assert(false);
    }
}

} // verus!
