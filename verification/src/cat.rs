//! The cat: a chain of segments, head first and tail last, that moves over
//! the grid like a train.

use vstd::prelude::*;
use crate::atlas::AtlasSprite;
use crate::direction::{Direction, Turn};
use crate::grid::{lemma_step_and_back, Cell};

verus! {

/// The part that a segment plays in the chain.
#[derive(Clone, Copy, PartialEq, Eq, Structural, Debug)]
pub enum Role {
    Head,
    Body,
    Tail,
}

/// One unit of the chain.
#[derive(Clone, Copy, PartialEq, Eq, Structural, Debug)]
pub struct Segment {
    /// Where the segment is.
    pub cell: Cell,
    /// Where the segment goes next.
    pub direction: Direction,
    /// The part the segment plays.
    pub role: Role,
    /// The picture the segment is drawn with.
    pub sprite: AtlasSprite,
    /// How the segment bent when it last moved. Only a body segment bends.
    pub turn: Turn,
}

/// The cat, from head to tail.
#[derive(Clone, PartialEq, Eq, Debug)]
pub struct Chain {
    pub segments: Vec<Segment>,
}

impl View for Chain {
    type V = Seq<Segment>;

    open spec fn view(&self) -> Seq<Segment> {
        self.segments@
    }
}

fn cat_segment(position: Cell, direction: Direction, role: Role, sprite: AtlasSprite) -> (s:
    Segment)
    ensures
        s == (Segment { cell: position, direction, role, sprite, turn: Turn::Straight }),
{
    Segment { cell: position, direction, role, sprite, turn: Turn::Straight }
}

/// A head at `position` that goes in `direction` and is drawn with `sprite`.
pub fn cat_head(position: Cell, direction: Direction, sprite: AtlasSprite) -> (s: Segment)
    ensures
        s == (Segment {
            cell: position,
            direction,
            role: Role::Head,
            sprite,
            turn: Turn::Straight,
        }),
{
    cat_segment(position, direction, Role::Head, sprite)
}

/// A body segment at `position` that goes in `direction` and is drawn with
/// `sprite`.
pub fn cat_body(position: Cell, direction: Direction, sprite: AtlasSprite) -> (s: Segment)
    ensures
        s == (Segment {
            cell: position,
            direction,
            role: Role::Body,
            sprite,
            turn: Turn::Straight,
        }),
{
    cat_segment(position, direction, Role::Body, sprite)
}

/// A tail at `position` that goes in `direction` and is drawn with `sprite`.
pub fn cat_tail(position: Cell, direction: Direction, sprite: AtlasSprite) -> (s: Segment)
    ensures
        s == (Segment {
            cell: position,
            direction,
            role: Role::Tail,
            sprite,
            turn: Turn::Straight,
        }),
{
    cat_segment(position, direction, Role::Tail, sprite)
}

/// What holds of every chain, also of one that has lost a segment in a
/// crash: it starts with its only head, and every segment is on the field.
pub open spec fn valid(s: Seq<Segment>) -> bool {
    &&& s.len() >= 1
    &&& s[0].role == Role::Head
    &&& forall|i: int| 1 <= i < s.len() ==> (#[trigger] s[i]).role != Role::Head
    &&& forall|i: int| 0 <= i < s.len() ==> (#[trigger] s[i]).cell.in_grid()
}

/// What holds of a chain in play: one head, then any number of body
/// segments, then one tail, all of them on the field.
pub open spec fn well_formed(s: Seq<Segment>) -> bool {
    &&& s.len() >= 2
    &&& s[0].role == Role::Head
    &&& s[s.len() - 1].role == Role::Tail
    &&& forall|i: int| 0 < i < s.len() - 1 ==> (#[trigger] s[i]).role == Role::Body
    &&& forall|i: int| 0 <= i < s.len() ==> (#[trigger] s[i]).cell.in_grid()
}

/// The cells of the segments, in the order of the chain.
pub open spec fn cells_of(s: Seq<Segment>) -> Seq<Cell> {
    Seq::new(s.len(), |i: int| s[i].cell)
}

/// Whether a segment other than the first is at `c`.
pub open spec fn blocked(s: Seq<Segment>, c: Cell) -> bool {
    exists|i: int| 1 <= i < s.len() && (#[trigger] s[i]).cell == c
}

/// Whether any segment is at `c`.
pub open spec fn occupied(s: Seq<Segment>, c: Cell) -> bool {
    exists|i: int| 0 <= i < s.len() && (#[trigger] s[i]).cell == c
}

/// The frame of the head that follows `sprite` when the head moves.
pub open spec fn next_head_frame(sprite: AtlasSprite) -> AtlasSprite {
    if sprite == AtlasSprite::Head1 {
        AtlasSprite::Head2
    } else {
        AtlasSprite::Head1
    }
}

/// The frame of the tail that follows `sprite` when the tail moves.
pub open spec fn next_tail_frame(sprite: AtlasSprite) -> AtlasSprite {
    if sprite == AtlasSprite::Tail1 {
        AtlasSprite::Tail2
    } else {
        AtlasSprite::Tail1
    }
}

/// The picture of a body segment that bends by `turn`.
pub open spec fn body_frame(turn: Turn) -> AtlasSprite {
    if turn == Turn::Straight {
        AtlasSprite::Body1
    } else {
        AtlasSprite::Body2
    }
}

/// Segment `i` of the chain `s` after one move. The head steps one cell in
/// its heading. Every other segment takes the cell and the heading that the
/// segment before it had; a body segment bends from its own old heading to
/// the one it takes.
pub open spec fn moved_segment(s: Seq<Segment>, i: int) -> Segment {
    if i == 0 {
        Segment {
            cell: s[0].cell.stepped(s[0].direction),
            sprite: next_head_frame(s[0].sprite),
            ..s[0]
        }
    } else if i == s.len() - 1 {
        Segment {
            cell: s[i - 1].cell,
            direction: s[i - 1].direction,
            sprite: next_tail_frame(s[i].sprite),
            ..s[i]
        }
    } else {
        let turn = s[i].direction.turn_to(s[i - 1].direction);
        Segment {
            cell: s[i - 1].cell,
            direction: s[i - 1].direction,
            sprite: body_frame(turn),
            turn,
            ..s[i]
        }
    }
}

/// The chain `s` after one move.
pub open spec fn moved(s: Seq<Segment>) -> Seq<Segment> {
    Seq::new(s.len(), |i: int| moved_segment(s, i))
}

/// Whether the food at `food` is within reach of the head: in the cell
/// ahead of it, or in the cell to either side.
pub open spec fn near_food(head: Segment, food: Cell) -> bool {
    let dx = head.direction.dx();
    let dy = head.direction.dy();
    ||| head.cell.shifted(dx, dy) == food
    ||| head.cell.shifted(-dy, dx) == food
    ||| head.cell.shifted(dy, -dx) == food
}

/// The frame of the head with its mouth open that goes with `sprite`.
pub open spec fn mouth_opened(sprite: AtlasSprite) -> AtlasSprite {
    if sprite == AtlasSprite::Head1 {
        AtlasSprite::Head3
    } else {
        AtlasSprite::Head4
    }
}

/// The chain `s` with the mouth of its head open where the food at `food` is
/// within reach of the head.
pub open spec fn mouthed(s: Seq<Segment>, food: Cell) -> Seq<Segment> {
    if near_food(s[0], food) {
        s.update(0, Segment { sprite: mouth_opened(s[0].sprite), ..s[0] })
    } else {
        s
    }
}

/// The chain `s` with one more body segment, which is a copy of the tail as
/// it stands and comes just before it. At the next move the new segment
/// follows the chain and the tail stays where it is.
pub open spec fn grown(s: Seq<Segment>) -> Seq<Segment> {
    s.insert(s.len() - 1, Segment { role: Role::Body, ..s[s.len() - 1] })
}

/// The place of the first segment at `c` among those of `s` from place
/// `from` on, or the length of `s` where there is none.
pub open spec fn first_at(s: Seq<Segment>, c: Cell, from: int) -> int
    decreases s.len() - from,
{
    if from >= s.len() {
        s.len() as int
    } else if s[from].cell == c {
        from
    } else {
        first_at(s, c, from + 1)
    }
}

/// The chain `s`, whose head has run into a segment behind it, after the
/// crash: the first segment that the head ran into is gone, and the head is
/// back in the cell behind it, drawn as hurt.
pub open spec fn crashed(s: Seq<Segment>) -> Seq<Segment> {
    s.remove(first_at(s, s[0].cell, 1)).update(
        0,
        Segment {
            cell: s[0].cell.stepped(s[0].direction.reversed()),
            sprite: AtlasSprite::Head5,
            ..s[0]
        },
    )
}

/// A cell is among the cells of a chain exactly when a segment of the chain
/// is at it.
pub proof fn lemma_cells_occupied(s: Seq<Segment>, c: Cell)
    ensures
        cells_of(s).contains(c) <==> occupied(s, c),
{
    if cells_of(s).contains(c) {
        let i = choose|i: int| 0 <= i < cells_of(s).len() && cells_of(s)[i] == c;
        assert(s[i].cell == c);
    }
    if occupied(s, c) {
        let i = choose|i: int| 0 <= i < s.len() && (#[trigger] s[i]).cell == c;
        assert(cells_of(s)[i] == c);
    }
}

/// The shape of a whole chain after one move. It is whole and as long as
/// before. The head has stepped one cell in its heading; every other segment
/// is in the cell that the segment before it has left, and goes where that
/// one went: the chain has no gaps. Where no two segments shared a cell and
/// the head has not stepped on a segment that stays behind, no two segments
/// share a cell afterwards.
pub proof fn lemma_moved_shape(s: Seq<Segment>)
    requires
        well_formed(s),
    ensures
        well_formed(moved(s)),
        moved(s).len() == s.len(),
        moved(s)[0].direction == s[0].direction,
        moved(s)[0].cell == s[0].cell.stepped(s[0].direction),
        forall|i: int| 1 <= i < s.len() ==> (#[trigger] moved(s)[i]).cell == s[i - 1].cell,
        forall|i: int|
            1 <= i < s.len() ==> (#[trigger] moved(s)[i]).direction == s[i - 1].direction,
        forall|i: int| 0 <= i < s.len() ==> (#[trigger] moved(s)[i]).role == s[i].role,
        cells_of(s).no_duplicates() && !occupied(
            s.take(s.len() - 1),
            s[0].cell.stepped(s[0].direction),
        ) ==> cells_of(moved(s)).no_duplicates(),
{
    let m = moved(s);
    let n = s.len() as int;
    let ahead = s[0].cell.stepped(s[0].direction);
    if cells_of(s).no_duplicates() && !occupied(s.take(n - 1), ahead) {
        assert forall|i: int, j: int| 0 <= i < j < n implies cells_of(m)[i] != cells_of(m)[j] by {
            if i == 0 {
                assert(s.take(n - 1)[j - 1].cell == s[j - 1].cell);
            } else {
                assert(cells_of(s)[i - 1] != cells_of(s)[j - 1]);
            }
        }
    }
}

/// A whole chain that grows stays whole, keeps its head, gains one segment
/// and lies on the cells it lay on.
pub proof fn lemma_grown_shape(s: Seq<Segment>, c: Cell)
    requires
        well_formed(s),
    ensures
        well_formed(grown(s)),
        grown(s).len() == s.len() + 1,
        grown(s)[0] == s[0],
        occupied(grown(s), c) <==> occupied(s, c),
{
    let g = grown(s);
    let n = s.len() as int;
    assert forall|i: int| 0 <= i < g.len() implies (#[trigger] g[i]).cell.in_grid() by {
        if i < n - 1 {
            assert(g[i] == s[i]);
        } else {
            assert(g[i].cell == s[n - 1].cell);
        }
    }
    assert forall|i: int| 0 < i < g.len() - 1 implies (#[trigger] g[i]).role
        == Role::Body by {
        if i < n - 1 {
            assert(g[i] == s[i]);
        }
    }
    assert(g[n] == s[n - 1]);
    if occupied(g, c) {
        let i = choose|i: int| 0 <= i < g.len() && (#[trigger] g[i]).cell == c;
        if i < n - 1 {
            assert(s[i].cell == c);
        } else {
            assert(s[n - 1].cell == c);
        }
    }
    if occupied(s, c) {
        let i = choose|i: int| 0 <= i < s.len() && (#[trigger] s[i]).cell == c;
        if i < n - 1 {
            assert(g[i].cell == c);
        } else {
            assert(g[n].cell == c);
        }
    }
}

/// A chain whose head has stepped from `home` into a segment behind it is,
/// after the crash, a chain that starts with its head and lies on the
/// field; it has lost one segment, and its head is back at `home` with the
/// heading it had.
pub proof fn lemma_crashed_shape(s: Seq<Segment>, home: Cell)
    requires
        valid(s),
        blocked(s, s[0].cell),
        home.in_grid(),
        s[0].cell == home.stepped(s[0].direction),
    ensures
        valid(crashed(s)),
        crashed(s).len() == s.len() - 1,
        crashed(s)[0].cell == home,
        crashed(s)[0].direction == s[0].direction,
{
    lemma_first_at(s, s[0].cell, 1);
    let k = first_at(s, s[0].cell, 1);
    let j = choose|j: int| 1 <= j < s.len() && (#[trigger] s[j]).cell == s[0].cell;
    assert(k <= j);
    let c = crashed(s);
    lemma_step_and_back(home, s[0].direction);
    assert forall|i: int| 1 <= i < c.len() implies (#[trigger] c[i]).role
        != Role::Head by {
        if i < k {
            assert(c[i] == s[i]);
        } else {
            assert(c[i] == s[i + 1]);
        }
    }
    assert forall|i: int| 0 <= i < c.len() implies (#[trigger] c[i]).cell.in_grid() by {
        if i == 0 {
        } else if i < k {
            assert(c[i] == s[i]);
        } else {
            assert(c[i] == s[i + 1]);
        }
    }
}

/// `first_at` gives the least place from `from` on of a segment at `c`.
pub proof fn lemma_first_at(s: Seq<Segment>, c: Cell, from: int)
    requires
        0 <= from <= s.len(),
    ensures
        from <= first_at(s, c, from) <= s.len(),
        first_at(s, c, from) < s.len() ==> s[first_at(s, c, from)].cell == c,
        forall|j: int| from <= j < first_at(s, c, from) ==> (#[trigger] s[j]).cell != c,
    decreases s.len() - from,
{
    if from < s.len() && s[from].cell != c {
        lemma_first_at(s, c, from + 1);
    }
}

impl Chain {
    /// Opens the mouth of the head where the food is within its reach.
    pub fn open_mouth_if_near_food(&mut self, food: Cell)
        requires
            old(self)@.len() >= 1,
        ensures
            final(self)@ == mouthed(old(self)@, food),
    {
        let head = self.segments[0];
        let v = head.direction.to_vec();
        if head.cell.shift(v.0, v.1) == food || head.cell.shift(-v.1, v.0) == food
            || head.cell.shift(v.1, -v.0) == food {
            self.segments[0] = Segment {
                sprite: if head.sprite == AtlasSprite::Head1 {
                    AtlasSprite::Head3
                } else {
                    AtlasSprite::Head4
                },
                ..head
            };
        }
    }

    /// Adds a body segment at the end of the chain, just before the tail: a
    /// copy of the tail as it stands.
    pub fn grow(&mut self)
        requires
            well_formed(old(self)@),
        ensures
            final(self)@ == grown(old(self)@),
            final(self)@.len() == old(self)@.len() + 1,
            well_formed(final(self)@),
    {
        let n = self.segments.len();
        let tail = self.segments[n - 1];
        self.segments.insert(n - 1, Segment { role: Role::Body, ..tail });
    }

    /// Deals with a head that has run into the chain. Where a segment
    /// behind the head is in the head's cell, the first such segment is
    /// removed, the head goes back one cell against its heading and is drawn
    /// as hurt, and the answer is `true`. Otherwise nothing changes.
    pub fn handle_hit(&mut self) -> (hit: bool)
        requires
            valid(old(self)@),
        ensures
            hit == blocked(old(self)@, old(self)@[0].cell),
            hit ==> final(self)@ == crashed(old(self)@),
            hit ==> final(self)@.len() == old(self)@.len() - 1,
            !hit ==> final(self)@ == old(self)@,
            valid(final(self)@),
    {
        let ghost before = self@;
        let n = self.segments.len();
        let head = self.segments[0];
        let mut i: usize = 1;
        while i < n && self.segments[i].cell != head.cell
            invariant
                n == self@.len(),
                self@ == before,
                head == before[0],
                1 <= i <= n,
                first_at(before, head.cell, 1) == first_at(before, head.cell, i as int),
                forall|j: int| 1 <= j < i ==> (#[trigger] before[j]).cell != head.cell,
            decreases n - i,
        {
            i = i + 1;
        }
        if i == n {
            return false;
        }
        self.segments.remove(i);
        self.segments[0] = Segment {
            cell: head.cell.step_back(head.direction),
            sprite: AtlasSprite::Head5,
            ..head
        };
        true
    }

    /// Moves the chain by one cell. The head steps in its heading; each
    /// other segment follows into the cell that the one before it leaves,
    /// and takes over its heading.
    pub fn move_cat(&mut self)
        requires
            well_formed(old(self)@),
        ensures
            final(self)@ == moved(old(self)@),
            well_formed(final(self)@),
    {
        let ghost before = self@;
        let n = self.segments.len();
        let head = self.segments[0];
        let mut prev_cell = head.cell;
        let mut next_dir = head.direction;
        self.segments[0] = Segment {
            cell: head.cell.step(head.direction),
            sprite: if head.sprite == AtlasSprite::Head1 {
                AtlasSprite::Head2
            } else {
                AtlasSprite::Head1
            },
            ..head
        };
        let mut i: usize = 1;
        while i < n - 1
            invariant
                well_formed(before),
                n == before.len(),
                n == self@.len(),
                1 <= i <= n - 1,
                prev_cell == before[i - 1].cell,
                next_dir == before[i - 1].direction,
                forall|j: int| 0 <= j < i ==> #[trigger] self@[j] == moved_segment(before, j),
                forall|j: int| i <= j < n ==> #[trigger] self@[j] == before[j],
            decreases n - i,
        {
            let seg = self.segments[i];
            let turn = seg.direction.classify_turn(next_dir);
            self.segments[i] = Segment {
                cell: prev_cell,
                direction: next_dir,
                sprite: if turn == Turn::Straight {
                    AtlasSprite::Body1
                } else {
                    AtlasSprite::Body2
                },
                turn,
                ..seg
            };
            prev_cell = seg.cell;
            next_dir = seg.direction;
            i = i + 1;
        }
        let tail = self.segments[n - 1];
        self.segments[n - 1] = Segment {
            cell: prev_cell,
            direction: next_dir,
            sprite: if tail.sprite == AtlasSprite::Tail1 {
                AtlasSprite::Tail2
            } else {
                AtlasSprite::Tail1
            },
            ..tail
        };
        assert(self@ =~= moved(before));
    }

    /// Tells whether the chain is one in play.
    pub fn is_well_formed(&self) -> (ok: bool)
        ensures
            ok == well_formed(self@),
    {
        let n = self.segments.len();
        if n < 2 {
            return false;
        }
        let mut i: usize = 0;
        while i < n
            invariant
                n == self@.len(),
                n >= 2,
                i <= n,
                forall|j: int|
                    0 <= j < i ==> (#[trigger] self@[j]).cell.in_grid() && (self@[j].role == (if j
                        == 0 {
                        Role::Head
                    } else if j == n - 1 {
                        Role::Tail
                    } else {
                        Role::Body
                    })),
            decreases n - i,
        {
            let seg = self.segments[i];
            let role_fits = if i == 0 {
                seg.role == Role::Head
            } else if i == n - 1 {
                seg.role == Role::Tail
            } else {
                seg.role == Role::Body
            };
            if !seg.cell.is_in_grid() || !role_fits {
                return false;
            }
            i = i + 1;
        }
        true
    }

    /// Number of segments.
    pub fn len(&self) -> (n: usize)
        ensures
            n == self@.len(),
    {
        self.segments.len()
    }

    /// The cells that the chain lies on, from head to tail.
    pub fn cells(&self) -> (v: Vec<Cell>)
        ensures
            v@ == cells_of(self@),
    {
        let mut v: Vec<Cell> = Vec::new();
        let n = self.segments.len();
        let mut i: usize = 0;
        while i < n
            invariant
                n == self@.len(),
                i <= n,
                v@ == cells_of(self@.take(i as int)),
            decreases n - i,
        {
            v.push(self.segments[i].cell);
            assert(v@ =~= cells_of(self@.take(i + 1)));
            i = i + 1;
        }
        assert(self@.take(n as int) =~= self@);
        v
    }

    /// Tells whether the chain starts with its only head and lies on the
    /// field.
    pub fn is_valid(&self) -> (ok: bool)
        ensures
            ok == valid(self@),
    {
        let n = self.segments.len();
        if n < 1 {
            return false;
        }
        let mut i: usize = 0;
        while i < n
            invariant
                n == self@.len(),
                n >= 1,
                i <= n,
                forall|j: int|
                    0 <= j < i ==> (#[trigger] self@[j]).cell.in_grid() && (self@[j].role
                        == Role::Head <==> j == 0),
            decreases n - i,
        {
            let seg = self.segments[i];
            let is_head = seg.role == Role::Head;
            if !seg.cell.is_in_grid() || is_head != (i == 0) {
                return false;
            }
            i = i + 1;
        }
        true
    }

    /// Tells whether any segment is at `c`.
    pub fn occupies(&self, c: Cell) -> (b: bool)
        ensures
            b == occupied(self@, c),
    {
        let n = self.segments.len();
        let mut i: usize = 0;
        while i < n
            invariant
                n == self@.len(),
                forall|j: int| 0 <= j < i && j < n ==> (#[trigger] self@[j]).cell != c,
            decreases n - i,
        {
            if self.segments[i].cell == c {
                return true;
            }
            i = i + 1;
        }
        false
    }

    /// Tells whether a segment behind the head is at `c`.
    pub fn blocks(&self, c: Cell) -> (b: bool)
        ensures
            b == blocked(self@, c),
    {
        let n = self.segments.len();
        let mut i: usize = 1;
        while i < n
            invariant
                n == self@.len(),
                1 <= i,
                forall|j: int| 1 <= j < i && j < n ==> (#[trigger] self@[j]).cell != c,
            decreases n - i,
        {
            if self.segments[i].cell == c {
                return true;
            }
            i = i + 1;
        }
        false
    }
}

} // verus!
