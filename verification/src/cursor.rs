use vstd::prelude::*;
use vstd::arithmetic::div_mod::lemma_small_mod;
use vstd::arithmetic::div_mod::lemma_mod_self_0;

verus! {

/// The editing cursor: either no slot of the pattern is selected, or the
/// slot at the given index is.
#[derive(Clone, Copy, Debug, PartialEq, Eq, Structural)]
pub enum Cursor {
    Inactive,
    Active(usize),
}

impl Cursor {
    /// An active cursor always points inside the current pattern.
    pub open spec fn valid(self, len: nat) -> bool {
        match self {
            Cursor::Inactive => true,
            Cursor::Active(i) => i < len,
        }
    }

    /// Entering edit mode from Inactive lands on slot 0; an empty pattern
    /// refuses edit mode; an already active cursor keeps its slot.
    pub open spec fn enter_spec(self, len: nat) -> Cursor {
        match self {
            Cursor::Inactive => if len > 0 {
                Cursor::Active(0)
            } else {
                Cursor::Inactive
            },
            Cursor::Active(_) => self,
        }
    }

    /// One step right, wrapping past the end back to slot 0.
    pub open spec fn right_spec(self, len: nat) -> Cursor {
        match self {
            Cursor::Inactive => self,
            Cursor::Active(i) => Cursor::Active((((i + 1) % (len as int))) as usize),
        }
    }

    /// One step left, wrapping before the start to the last slot.
    pub open spec fn left_spec(self, len: nat) -> Cursor {
        match self {
            Cursor::Inactive => self,
            Cursor::Active(i) => Cursor::Active(
                if i == 0 {
                    (len - 1) as usize
                } else {
                    (i - 1) as usize
                },
            ),
        }
    }

    pub fn enter_edit(&mut self, len: usize)
        requires
            old(self).valid(len as nat),
        ensures
            *final(self) == old(self).enter_spec(len as nat),
            final(self).valid(len as nat),
    {
        match *self {
            Cursor::Inactive => {
                if len > 0 {
                    *self = Cursor::Active(0);
                }
            },
            Cursor::Active(_) => {},
        }
    }

    pub fn move_right(&mut self, len: usize)
        requires
            old(self).valid(len as nat),
        ensures
            *final(self) == old(self).right_spec(len as nat),
            final(self).valid(len as nat),
    {
        match *self {
            Cursor::Inactive => {},
            Cursor::Active(i) => {
                *self = Cursor::Active((i + 1) % len);
            },
        }
    }

    pub fn move_left(&mut self, len: usize)
        requires
            old(self).valid(len as nat),
        ensures
            *final(self) == old(self).left_spec(len as nat),
            final(self).valid(len as nat),
    {
        match *self {
            Cursor::Inactive => {},
            Cursor::Active(i) => {
                if i == 0 {
                    *self = Cursor::Active(len - 1);
                } else {
                    *self = Cursor::Active(i - 1);
                }
            },
        }
    }

    /// Escape always deactivates the cursor, whatever slot it was on.
    pub fn escape(&mut self)
        ensures
            *final(self) == Cursor::Inactive,
    {
        *self = Cursor::Inactive;
    }
}

/// The cursor after `k` successive steps right.
pub open spec fn iter_right(c: Cursor, len: nat, k: nat) -> Cursor
    decreases k,
{
    if k == 0 {
        c
    } else {
        iter_right(c.right_spec(len), len, (k - 1) as nat)
    }
}

proof fn lemma_right_cycle_from(j: usize, len: usize)
    requires
        len >= 1,
        j < len,
    ensures
        iter_right(Cursor::Active(j), len as nat, (len - j) as nat) == Cursor::Active(0),
    decreases len - j,
{
    let next = Cursor::Active(j).right_spec(len as nat);
    if j + 1 == len {
        lemma_mod_self_0(len as int);
        assert(((j + 1) as int) % (len as int) == 0);
        assert(next == Cursor::Active(0));
        assert(iter_right(next, len as nat, 0) == next);
    } else {
        lemma_small_mod((j + 1) as nat, len as nat);
        assert(next == Cursor::Active((j + 1) as usize));
        lemma_right_cycle_from((j + 1) as usize, len);
    }
}

/// Wraparound law: starting from slot 0 on a pattern of positive length,
/// one step right per slot returns the cursor to slot 0, and one step left
/// from slot 0 wraps to the last slot.
pub proof fn lemma_cursor_wraparound(len: usize)
    requires
        len >= 1,
    ensures
        iter_right(Cursor::Active(0), len as nat, len as nat) == Cursor::Active(0),
        Cursor::Active(0).left_spec(len as nat) == Cursor::Active((len - 1) as usize),
{
    lemma_right_cycle_from(0, len);
}

} // verus!
