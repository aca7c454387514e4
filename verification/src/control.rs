//! The queue of headings that the player has asked for and the cat has not
//! yet taken.

use std::collections::VecDeque;
use vstd::prelude::*;
use crate::cat::{blocked, Chain, Segment};
use crate::direction::Direction;

verus! {

/// How many headings the queue holds at most.
pub const INPUT_CAPACITY: usize = 4;

/// The arrow keys that went down since the last frame.
#[derive(Clone, Copy, PartialEq, Eq, Structural, Debug)]
pub struct ArrowKeys {
    pub left: bool,
    pub right: bool,
    pub up: bool,
    pub down: bool,
}

/// A first-in, first-out queue of at most `INPUT_CAPACITY` headings. A
/// heading pushed onto a full queue drives out the oldest one.
#[derive(Debug)]
pub struct InputBuffer {
    deque: VecDeque<Direction>,
}

impl View for InputBuffer {
    type V = Seq<Direction>;

    closed spec fn view(&self) -> Seq<Direction> {
        self.deque@
    }
}

/// The queue `q` after `item` has been pushed: `item` stands last, and the
/// oldest heading has left if the queue was full.
pub open spec fn pushed(q: Seq<Direction>, item: Direction) -> Seq<Direction> {
    if q.len() == INPUT_CAPACITY {
        q.skip(1).push(item)
    } else {
        q.push(item)
    }
}

/// The queue `q` after the headings of `items` have been pushed one by one,
/// the first of them first.
pub open spec fn pushed_all(q: Seq<Direction>, items: Seq<Direction>) -> Seq<Direction>
    decreases items.len(),
{
    if items.len() == 0 {
        q
    } else {
        pushed(pushed_all(q, items.drop_last()), items.last())
    }
}

/// The heading that a set of pressed keys asks for: left before right before
/// up before down, and none where no key went down.
pub open spec fn pressed(keys: ArrowKeys) -> Option<Direction> {
    if keys.left {
        Some(Direction::Left)
    } else if keys.right {
        Some(Direction::Right)
    } else if keys.up {
        Some(Direction::Up)
    } else if keys.down {
        Some(Direction::Down)
    } else {
        None
    }
}

impl InputBuffer {
    /// Whether the queue is within its capacity.
    pub open spec fn wf(&self) -> bool {
        self@.len() <= INPUT_CAPACITY
    }

    /// An empty queue.
    pub fn new() -> (b: InputBuffer)
        ensures
            b@ == Seq::<Direction>::empty(),
            b.wf(),
    {
        InputBuffer { deque: VecDeque::new() }
    }

    /// Appends `item`; a full queue first drops its oldest heading.
    pub fn push(&mut self, item: Direction)
        ensures
            final(self)@ == pushed(old(self)@, item),
            old(self).wf() ==> final(self).wf(),
    {
        if self.deque.len() == INPUT_CAPACITY {
            self.deque.pop_front();
        }
        self.deque.push_back(item);
    }

    /// Takes the oldest heading out of the queue, if there is one.
    pub fn pop(&mut self) -> (item: Option<Direction>)
        ensures
            old(self)@.len() == 0 ==> item.is_none() && final(self)@ == old(self)@,
            old(self)@.len() > 0 ==> item == Some(old(self)@[0]) && final(self)@ == old(self)@.skip(
                1,
            ),
            old(self).wf() ==> final(self).wf(),
    {
        self.deque.pop_front()
    }

    /// Empties the queue.
    pub fn clear(&mut self)
        ensures
            final(self)@ == Seq::<Direction>::empty(),
            final(self).wf(),
    {
        self.deque.clear();
    }

    /// Number of headings that wait in the queue.
    pub fn len(&self) -> (n: usize)
        ensures
            n == self@.len(),
    {
        self.deque.len()
    }

    /// The headings that wait in the queue, the oldest first.
    pub fn pending(&self) -> (v: Vec<Direction>)
        ensures
            v@ == self@,
    {
        let mut v: Vec<Direction> = Vec::new();
        let n = self.deque.len();
        let mut i: usize = 0;
        while i < n
            invariant
                n == self.deque@.len(),
                i <= n,
                v@ == self.deque@.take(i as int),
            decreases n - i,
        {
            v.push(self.deque[i]);
            i = i + 1;
        }
        v
    }
}

impl Default for InputBuffer {
    fn default() -> (b: InputBuffer)
        ensures
            b@ == Seq::<Direction>::empty(),
            b.wf(),
    {
        InputBuffer::new()
    }
}

/// Queues the heading that the pressed keys ask for. At most one heading is
/// queued per call: left wins over right, right over up, up over down.
pub fn control_cat(keys: ArrowKeys, input_buffer: &mut InputBuffer)
    ensures
        final(input_buffer)@ == match pressed(keys) {
            Some(d) => pushed(old(input_buffer)@, d),
            None => old(input_buffer)@,
        },
        old(input_buffer).wf() ==> final(input_buffer).wf(),
{
    if keys.left {
        input_buffer.push(Direction::Left);
    } else if keys.right {
        input_buffer.push(Direction::Right);
    } else if keys.up {
        input_buffer.push(Direction::Up);
    } else if keys.down {
        input_buffer.push(Direction::Down);
    }
}

/// Whether the head of the chain `s` may turn to `d`: `d` is neither the
/// heading it has nor the reverse of it, and the cell that lies in the
/// heading `d` holds no segment of the chain behind the head.
pub open spec fn accepts(s: Seq<Segment>, d: Direction) -> bool {
    &&& d != s[0].direction
    &&& d != s[0].direction.reversed()
    &&& !blocked(s, s[0].cell.stepped(d))
}

/// The heading that the head of the chain `s` takes when the queue holds
/// `q`, and what the queue holds afterwards. Headings leave the queue, the
/// oldest first, up to and including the first one that the head may turn
/// to. Where there is none, the head keeps its heading and the queue is
/// left empty.
pub open spec fn resolved(s: Seq<Segment>, q: Seq<Direction>) -> (Direction, Seq<Direction>)
    decreases q.len(),
{
    if q.len() == 0 {
        (s[0].direction, q)
    } else if accepts(s, q[0]) {
        (q[0], q.skip(1))
    } else {
        resolved(s, q.skip(1))
    }
}

/// The chain `s` with its head turned to the heading that is settled when
/// the queue holds `q`.
pub open spec fn headed(s: Seq<Segment>, q: Seq<Direction>) -> Seq<Segment> {
    s.update(0, Segment { direction: resolved(s, q).0, ..s[0] })
}

/// Settles the heading of the head for the coming move from the headings
/// that wait in the queue.
pub fn update_cat_head_dir(chain: &mut Chain, input_buffer: &mut InputBuffer)
    requires
        old(chain)@.len() >= 1,
    ensures
        final(chain)@ == headed(old(chain)@, old(input_buffer)@),
        final(input_buffer)@ == resolved(old(chain)@, old(input_buffer)@).1,
        old(input_buffer).wf() ==> final(input_buffer).wf(),
{
    let ghost s = chain@;
    let ghost q = input_buffer@;
    let head = chain.segments[0];
    let mut chosen: Option<Direction> = None;
    while chosen.is_none() && input_buffer.len() > 0
        invariant
            chain@ == s,
            s.len() >= 1,
            head == s[0],
            input_buffer@.len() <= q.len(),
            resolved(s, q) == match chosen {
                Some(d) => (d, input_buffer@),
                None => resolved(s, input_buffer@),
            },
        decreases input_buffer@.len() + (if chosen.is_none() { 1int } else { 0int }),
    {
        let popped = input_buffer.pop();
        let new_dir = match popped {
            Some(d) => d,
            None => head.direction,
        };
        if new_dir != head.direction && new_dir != head.direction.opposite() {
            let next_cell = head.cell.step(new_dir);
            if !chain.blocks(next_cell) {
                chosen = Some(new_dir);
            }
        }
    }
    match chosen {
        Some(d) => {
            chain.segments[0] = Segment { direction: d, ..head };
        },
        None => {
            assert(chain@ =~= s.update(0, s[0]));
        },
    }
}

/// The head never turns back on itself: whatever waits in the queue, the
/// heading that is settled is not the reverse of the heading the head had.
/// It is the old heading, or one that the head may turn to.
pub proof fn lemma_no_reversal(s: Seq<Segment>, q: Seq<Direction>)
    ensures
        resolved(s, q).0 != s[0].direction.reversed(),
        resolved(s, q).0 == s[0].direction || accepts(s, resolved(s, q).0),
        resolved(s, q).1.len() <= q.len(),
    decreases q.len(),
{
    if q.len() > 0 && !accepts(s, q[0]) {
        lemma_no_reversal(s, q.skip(1));
    }
}

/// Pushing any run of headings onto a queue within its capacity leaves the
/// last `INPUT_CAPACITY` of all the headings, old and new, in their order.
pub proof fn lemma_pushed_all_keeps_latest(q: Seq<Direction>, items: Seq<Direction>)
    requires
        q.len() <= INPUT_CAPACITY,
    ensures
        pushed_all(q, items).len() <= INPUT_CAPACITY,
        (q + items).len() <= INPUT_CAPACITY ==> pushed_all(q, items) == q + items,
        (q + items).len() > INPUT_CAPACITY ==> pushed_all(q, items) == (q + items).skip(
            (q + items).len() - INPUT_CAPACITY,
        ),
    decreases items.len(),
{
    if items.len() == 0 {
        assert(q + items =~= q);
    } else {
        let front = items.drop_last();
        lemma_pushed_all_keeps_latest(q, front);
        let all = q + items;
        let before = q + front;
        assert(all =~= before.push(items.last()));
        let held = pushed_all(q, front);
        if before.len() < INPUT_CAPACITY {
            assert(pushed(held, items.last()) =~= all);
        } else if before.len() == INPUT_CAPACITY {
            assert(pushed(held, items.last()) =~= all.skip(1));
        } else {
            assert(pushed(held, items.last()) =~= all.skip(all.len() - INPUT_CAPACITY));
        }
    }
}

} // verus!
