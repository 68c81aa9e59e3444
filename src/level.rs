//! The level map: a core rectangle, the cells added to it one by one, and
//! what stands on them.

use vstd::prelude::*;
use vstd::arithmetic::div_mod::lemma_fundamental_div_mod_converse;
use crate::calls::{lemma_unique_seq, unique_cells, unique_seq};
use crate::entities::{Enemy, Item};
use crate::geometry::{orth_adjacent, offset, unit_apart, Pos};

verus! {

/// The map. The explored region is the core rectangle `[0, size.x) × [0, size.y)`
/// together with the expansion cells; it only ever grows.
pub struct LevelMap {
    pub size: Pos,
    pub items: Vec<Item>,
    pub enemies: Vec<Enemy>,
    pub dead_enemies: Vec<Enemy>,
    pub expansion_cells: Vec<Pos>,
}

pub open spec fn in_core(size: Pos, p: Pos) -> bool {
    0 <= p.x < size.x && 0 <= p.y < size.y
}

/// Cells that touch the core rectangle along an edge of it, or lie in it.
pub open spec fn near_core(size: Pos, p: Pos) -> bool {
    (-1 <= p.x <= size.x && 0 <= p.y < size.y) || (0 <= p.x < size.x && -1 <= p.y <= size.y)
}

/// The cells of the core rectangle, column by column.
pub open spec fn core_cells(size: Pos) -> Seq<Pos> {
    if size.x > 0 && size.y > 0 {
        Seq::new(
            (size.x * size.y) as nat,
            |k: int| Pos { x: (k / size.y as int) as i64, y: (k % size.y as int) as i64 },
        )
    } else {
        Seq::empty()
    }
}

impl LevelMap {
    pub open spec fn inside_spec(&self, p: Pos) -> bool {
        in_core(self.size, p) || self.expansion_cells@.contains(p)
    }

    pub open spec fn next_to_expansion(&self, p: Pos) -> bool {
        exists|i: int|
            0 <= i < self.expansion_cells@.len() && orth_adjacent(
                #[trigger] self.expansion_cells@[i],
                p,
            )
    }

    /// Whether a live enemy stands at `p`.
    pub open spec fn enemy_at_spec(&self, p: Pos) -> bool {
        exists|i: int| 0 <= i < self.enemies@.len() && (#[trigger] self.enemies@[i]).pos == p
    }

    /// Whether an item lies at `p`.
    pub open spec fn item_at_spec(&self, p: Pos) -> bool {
        exists|i: int| 0 <= i < self.items@.len() && (#[trigger] self.items@[i]).pos == p
    }

    /// A cell that can be added to the explored region next.
    pub open spec fn adjacent_spec(&self, p: Pos) -> bool {
        !self.inside_spec(p) && (near_core(self.size, p) || self.next_to_expansion(p))
    }

    /// Whether `pos` is explored.
    pub fn inside(&self, pos: Pos) -> (r: bool)
        ensures
            r == self.inside_spec(pos),
    {
        let in_core_rect = pos.x >= 0 && pos.x < self.size.x && pos.y >= 0 && pos.y
            < self.size.y;
        in_core_rect || self.expansion_contains(pos)
    }

    /// Whether a live enemy stands at `pos`.
    pub fn enemy_at(&self, pos: Pos) -> (r: bool)
        ensures
            r == self.enemy_at_spec(pos),
    {
        let mut i: usize = 0;
        while i < self.enemies.len()
            invariant
                0 <= i <= self.enemies@.len(),
                forall|j: int| 0 <= j < i ==> (#[trigger] self.enemies@[j]).pos != pos,
            decreases self.enemies@.len() - i,
        {
            if self.enemies[i].pos == pos {
                return true;
            }
            i += 1;
        }
        false
    }

    /// Whether an item lies at `pos`.
    pub fn item_at(&self, pos: Pos) -> (r: bool)
        ensures
            r == self.item_at_spec(pos),
    {
        let mut i: usize = 0;
        while i < self.items.len()
            invariant
                0 <= i <= self.items@.len(),
                forall|j: int| 0 <= j < i ==> (#[trigger] self.items@[j]).pos != pos,
            decreases self.items@.len() - i,
        {
            if self.items[i].pos == pos {
                return true;
            }
            i += 1;
        }
        false
    }

    fn expansion_contains(&self, pos: Pos) -> (r: bool)
        ensures
            r == self.expansion_cells@.contains(pos),
    {
        let mut i: usize = 0;
        while i < self.expansion_cells.len()
            invariant
                0 <= i <= self.expansion_cells@.len(),
                forall|j: int| 0 <= j < i ==> self.expansion_cells@[j] != pos,
            decreases self.expansion_cells@.len() - i,
        {
            if self.expansion_cells[i] == pos {
                return true;
            }
            i += 1;
        }
        false
    }

    fn next_to_expansion_exec(&self, pos: Pos) -> (r: bool)
        ensures
            r == self.next_to_expansion(pos),
    {
        let mut i: usize = 0;
        while i < self.expansion_cells.len()
            invariant
                0 <= i <= self.expansion_cells@.len(),
                forall|j: int| 0 <= j < i ==> !orth_adjacent(self.expansion_cells@[j], pos),
            decreases self.expansion_cells@.len() - i,
        {
            if unit_apart(self.expansion_cells[i], pos) {
                return true;
            }
            i += 1;
        }
        false
    }

    /// Whether `pos` is a valid next expansion cell: unexplored, and touching
    /// the core rectangle along an edge or sharing an edge with an expansion cell.
    pub fn adjacent(&self, pos: Pos) -> (r: bool)
        ensures
            r == self.adjacent_spec(pos),
    {
        let touches_core = pos.x >= -1 && pos.x <= self.size.x && pos.y >= 0
            && pos.y < self.size.y || pos.x >= 0 && pos.x < self.size.x && pos.y >= -1 && pos.y
            <= self.size.y;
        !self.inside(pos) && (touches_core || self.next_to_expansion_exec(pos))
    }

    /// Every explored cell: the core rectangle column by column, then the
    /// expansion cells in the order they were added.
    pub fn cells_iter(&self) -> (r: Vec<Pos>)
        ensures
            r@ == core_cells(self.size) + self.expansion_cells@,
    {
        let mut out: Vec<Pos> = Vec::new();
        let sx = self.size.x;
        let sy = self.size.y;
        if sy > 0 {
            let mut x: i64 = 0;
            while x < sx
                invariant
                    sy == self.size.y > 0,
                    sx == self.size.x,
                    0 <= x,
                    sx > 0 ==> x <= sx,
                    sx <= 0 ==> x == 0,
                    out@.len() == x * sy,
                    forall|k: int|
                        0 <= k < out@.len() ==> #[trigger] out@[k] == (Pos {
                            x: (k / sy as int) as i64,
                            y: (k % sy as int) as i64,
                        }),
                decreases sx - x,
            {
                let mut y: i64 = 0;
                while y < sy
                    invariant
                        sy == self.size.y > 0,
                        sx == self.size.x,
                        0 <= x < sx,
                        0 <= y <= sy,
                        out@.len() == x * sy + y,
                        forall|k: int|
                            0 <= k < out@.len() ==> #[trigger] out@[k] == (Pos {
                                x: (k / sy as int) as i64,
                                y: (k % sy as int) as i64,
                            }),
                    decreases sy - y,
                {
                    proof {
                        lemma_fundamental_div_mod_converse(
                            x * sy + y,
                            sy as int,
                            x as int,
                            y as int,
                        );
                    }
                    out.push(Pos { x, y });
                    y += 1;
                }
                assert((x + 1) * sy == x * sy + sy) by (nonlinear_arith);
                x += 1;
            }
            if sx > 0 {
                assert(x == sx);
                let ghost c = core_cells(self.size);
                assert(out@.len() == c.len());
                assert forall|k: int| 0 <= k < c.len() implies out@[k] == c[k] by {
                    assert(out@[k] == (Pos { x: (k / sy as int) as i64, y: (k % sy as int) as i64 }));
                }
                assert(out@ =~= c);
            } else {
                assert(out@ =~= core_cells(self.size));
            }
        } else {
            assert(out@ =~= core_cells(self.size));
        }
        let ghost core = out@;
        let mut i: usize = 0;
        while i < self.expansion_cells.len()
            invariant
                0 <= i <= self.expansion_cells@.len(),
                core == core_cells(self.size),
                out@ == core + self.expansion_cells@.take(i as int),
            decreases self.expansion_cells@.len() - i,
        {
            out.push(self.expansion_cells[i]);
            assert(self.expansion_cells@.take(i + 1) =~= self.expansion_cells@.take(i as int).push(
                self.expansion_cells@[i as int],
            ));
            i += 1;
        }
        assert(self.expansion_cells@.take(i as int) =~= self.expansion_cells@);
        out
    }

    /// Every cell that can be added to the explored region next, each once.
    pub fn adjacent_cells_iter(&self) -> (r: Vec<Pos>)
        ensures
            r@.no_duplicates(),
            forall|p: Pos| #[trigger] r@.contains(p) <==> self.adjacent_spec(p),
    {
        let mut raw: Vec<Pos> = Vec::new();
        let sx = self.size.x;
        let sy = self.size.y;
        let mut x: i128 = -1;
        while x <= sx as i128
            invariant
                sx == self.size.x,
                sy == self.size.y,
                -1 <= x,
                x <= sx + 1 || x == -1,
                forall|p: Pos|
                    near_core(self.size, p) && p.x < x ==> #[trigger] raw@.contains(p),
            decreases sx + 1 - x,
        {
            let mut y: i128 = -1;
            while y <= sy as i128
                invariant
                    sx == self.size.x,
                    sy == self.size.y,
                    -1 <= x <= sx,
                    -1 <= y,
                    y <= sy + 1 || y == -1,
                    forall|p: Pos|
                        near_core(self.size, p) && (p.x < x || (p.x == x && p.y < y))
                            ==> #[trigger] raw@.contains(p),
                decreases sy + 1 - y,
            {
                let ghost before = raw@;
                let q = Pos { x: x as i64, y: y as i64 };
                raw.push(q);
                proof {
                    lemma_push_keeps(before, q);
                    assert forall|p: Pos|
                        near_core(self.size, p) && (p.x < x || (p.x == x && p.y < y + 1))
                            implies #[trigger] raw@.contains(p) by {
                        if p.x == x && p.y == y {
                            assert(p == q);
                        } else {
                            assert(before.contains(p));
                        }
                    }
                }
                y += 1;
            }
            x += 1;
        }
        let mut i: usize = 0;
        while i < self.expansion_cells.len()
            invariant
                0 <= i <= self.expansion_cells@.len(),
                forall|p: Pos| near_core(self.size, p) ==> #[trigger] raw@.contains(p),
                forall|j: int, p: Pos|
                    0 <= j < i && #[trigger] orth_adjacent(self.expansion_cells@[j], p)
                        ==> raw@.contains(p),
            decreases self.expansion_cells@.len() - i,
        {
            let c = self.expansion_cells[i];
            let ghost r0 = raw@;
            push_offset(&mut raw, c, -1, 0);
            let ghost r1 = raw@;
            push_offset(&mut raw, c, 0, -1);
            let ghost r2 = raw@;
            push_offset(&mut raw, c, 1, 0);
            let ghost r3 = raw@;
            push_offset(&mut raw, c, 0, 1);
            proof {
                assert forall|p: Pos| near_core(self.size, p) implies #[trigger] raw@.contains(p) by {
                    assert(r0.contains(p));
                }
                assert forall|j: int, p: Pos|
                    0 <= j < i + 1 && #[trigger] orth_adjacent(self.expansion_cells@[j], p)
                        implies raw@.contains(p) by {
                    if j < i {
                        assert(r0.contains(p));
                    } else if p.x == c.x - 1 {
                        assert(r1.contains(p));
                    } else if p.y == c.y - 1 {
                        assert(r2.contains(p));
                    } else if p.x == c.x + 1 {
                        assert(r3.contains(p));
                    }
                }
            }
            i += 1;
        }
        proof {
            lemma_unique_seq(raw@);
        }
        let u = unique_cells(raw);
        let mut out: Vec<Pos> = Vec::new();
        let mut k: usize = 0;
        while k < u.len()
            invariant
                0 <= k <= u@.len(),
                u@.no_duplicates(),
                out@.no_duplicates(),
                forall|p: Pos|
                    #[trigger] out@.contains(p) <==> (u@.take(k as int).contains(p)
                        && self.adjacent_spec(p)),
            decreases u@.len() - k,
        {
            let c = u[k];
            let ghost before = out@;
            assert(u@.take(k + 1) =~= u@.take(k as int).push(c));
            proof {
                lemma_push_contains(u@.take(k as int), c);
                if u@.take(k as int).contains(c) {
                    let j = choose|j: int| 0 <= j < k && u@.take(k as int)[j] == c;
                    assert(u@[j] == u@[k as int]);
                }
            }
            if self.adjacent(c) {
                out.push(c);
                proof {
                    lemma_push_contains(before, c);
                    assert forall|a: int, b: int|
                        0 <= a < out@.len() && 0 <= b < out@.len() && a != b implies out@[a]
                        != out@[b] by {
                        if a < before.len() && b < before.len() {
                            assert(before[a] != before[b]);
                        } else if a < before.len() {
                            assert(before.contains(before[a]));
                        } else if b < before.len() {
                            assert(before.contains(before[b]));
                        }
                    }
                }
            }
            k += 1;
        }
        assert(u@.take(k as int) =~= u@);
        proof {
            assert forall|p: Pos| self.adjacent_spec(p) implies #[trigger] raw@.contains(p) by {
                if !near_core(self.size, p) {
                    let j = choose|j: int|
                        0 <= j < self.expansion_cells@.len() && orth_adjacent(
                            #[trigger] self.expansion_cells@[j],
                            p,
                        );
                }
            }
        }
        out
    }
}

/// Adds the cell `(dx, dy)` away from `c` to `raw`, where it can be represented.
fn push_offset(raw: &mut Vec<Pos>, c: Pos, dx: i64, dy: i64)
    requires
        -1 <= dx <= 1,
        -1 <= dy <= 1,
    ensures
        forall|p: Pos| #[trigger] old(raw)@.contains(p) ==> final(raw)@.contains(p),
        forall|p: Pos|
            p.x == c.x + dx && p.y == c.y + dy ==> #[trigger] final(raw)@.contains(p),
{
    let ghost before = raw@;
    match offset(c, dx, dy) {
        Some(q) => {
            raw.push(q);
            proof {
                lemma_push_keeps(before, q);
                assert(raw@[raw@.len() - 1] == q);
            }
        },
        None => {},
    }
}

proof fn lemma_push_keeps(s: Seq<Pos>, v: Pos)
    ensures
        forall|p: Pos| #[trigger] s.contains(p) ==> s.push(v).contains(p),
        s.push(v).contains(v),
{
    assert(s.push(v)[s.len() as int] == v);
    assert forall|p: Pos| #[trigger] s.contains(p) implies s.push(v).contains(p) by {
        let i = choose|i: int| 0 <= i < s.len() && s[i] == p;
        assert(s.push(v)[i] == p);
    }
}

proof fn lemma_push_contains(s: Seq<Pos>, v: Pos)
    ensures
        forall|p: Pos| #[trigger] s.push(v).contains(p) <==> (s.contains(p) || p == v),
{
    lemma_push_keeps(s, v);
    assert forall|p: Pos| #[trigger] s.push(v).contains(p) implies (s.contains(p) || p == v) by {
        let i = choose|i: int| 0 <= i < s.len() + 1 && s.push(v)[i] == p;
        if i < s.len() {
            assert(s[i] == p);
        }
    }
}

} // verus!
