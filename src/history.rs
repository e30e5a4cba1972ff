use vstd::prelude::*;

use crate::life::LifeBoard;
use std::collections::VecDeque;

verus! {

/// The most recent boards, oldest first, at most `capacity` of them: a
/// board pushed onto a full history evicts the oldest one.
pub struct History {
    boards: VecDeque<LifeBoard>,
    capacity: usize,
}

impl View for History {
    type V = Seq<LifeBoard>;

    closed spec fn view(&self) -> Seq<LifeBoard> {
        self.boards@
    }
}

/// The boards kept after `b` is pushed onto `kept` with room for `capacity`.
pub open spec fn pushed(kept: Seq<LifeBoard>, b: LifeBoard, capacity: nat) -> Seq<LifeBoard> {
    if kept.len() < capacity {
        kept.push(b)
    } else {
        kept.push(b).drop_first()
    }
}

impl History {
    /// At most `capacity` boards are kept.
    pub closed spec fn wf(&self) -> bool {
        self.boards@.len() <= self.capacity
    }

    /// The most boards kept.
    pub closed spec fn capacity(&self) -> nat {
        self.capacity as nat
    }

    /// An empty history that keeps up to `capacity` boards.
    pub fn new(capacity: usize) -> (h: History)
        ensures
            h.wf(),
            h@ == Seq::<LifeBoard>::empty(),
            h.capacity() == capacity,
    {
        History { boards: VecDeque::new(), capacity }
    }

    /// Appends `board` as the newest entry, dropping the oldest one where
    /// the history would otherwise hold more than its capacity.
    pub fn push(&mut self, board: LifeBoard)
        requires
            old(self).wf(),
        ensures
            final(self).wf(),
            final(self)@ == pushed(old(self)@, board, old(self).capacity()),
            final(self).capacity() == old(self).capacity(),
            final(self)@.len() <= final(self).capacity(),
    {
        self.boards.push_back(board);
        if self.boards.len() > self.capacity {
            let _ = self.boards.pop_front();
        }
        proof {
            assert(self.boards@ =~= pushed(old(self)@, board, old(self).capacity()));
        }
    }

    /// How many boards are kept.
    pub fn len(&self) -> (n: usize)
        ensures
            n == self@.len(),
    {
        self.boards.len()
    }

    /// The board at position `i`, counting from the oldest.
    pub fn get(&self, i: usize) -> (b: &LifeBoard)
        requires
            i < self@.len(),
        ensures
            *b == self@[i as int],
    {
        &self.boards[i]
    }
}

} // verus!
