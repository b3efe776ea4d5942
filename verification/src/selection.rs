//! The cursor of a displayed list: the index of the highlighted row, which
//! wraps around at both ends.

use vstd::prelude::*;
use vstd::arithmetic::div_mod::{lemma_mod_add_multiples_vanish, lemma_mod_self_0, lemma_small_mod};

verus! {

/// The index below `index` in a list of `length` rows, the first one after
/// the last. Nothing moves in an empty list.
pub open spec fn index_down(index: nat, length: nat) -> nat {
    if length == 0 {
        index
    } else {
        (index + 1) % length
    }
}

/// The index above `index` in a list of `length` rows, the last one before
/// the first. Nothing moves in an empty list.
pub open spec fn index_up(index: nat, length: nat) -> nat {
    if length == 0 {
        index
    } else {
        ((index + length - 1) % (length as int)) as nat
    }
}

/// Moving down from the last row leads to the first, from any other row to
/// the next; moving up from the first row leads to the last, from any other
/// row to the one before.
pub proof fn lemma_index_wraps(index: nat, length: nat)
    requires
        index < length,
    ensures
        index_down(index, length) == if index == length - 1 {
            0
        } else {
            index + 1
        },
        index_up(index, length) == if index == 0 {
            length - 1
        } else {
            index - 1
        },
        index_down(index, length) < length,
        index_up(index, length) < length,
{
    if index == length - 1 {
        lemma_mod_self_0(length as int);
    } else {
        lemma_small_mod(index + 1, length);
    }
    if index == 0 {
        lemma_small_mod((length - 1) as nat, length);
    } else {
        lemma_mod_add_multiples_vanish(index - 1, length as int);
        lemma_small_mod((index - 1) as nat, length);
    }
}

/// Moving down and then up, or up and then down, leads back to the same row.
pub proof fn lemma_index_there_and_back(index: nat, length: nat)
    requires
        index < length,
    ensures
        index_up(index_down(index, length), length) == index,
        index_down(index_up(index, length), length) == index,
{
    lemma_index_wraps(index, length);
    lemma_index_wraps(index_down(index, length), length);
    lemma_index_wraps(index_up(index, length), length);
}

/// The cursor of a list of `length` rows. In a list that has rows the index
/// is that of one of them; an empty list has nothing selected.
#[derive(Clone, Copy, Debug, PartialEq, Eq)]
pub struct SelectionCursor {
    index: usize,
    length: usize,
}

impl SelectionCursor {
    #[verifier::type_invariant]
    spec fn in_range(&self) -> bool {
        if self.length == 0 {
            self.index == 0
        } else {
            self.index < self.length
        }
    }

    /// The index of the highlighted row; 0 in an empty list.
    pub closed spec fn index(&self) -> nat {
        self.index as nat
    }

    /// The number of rows of the list.
    pub closed spec fn length(&self) -> nat {
        self.length as nat
    }

    /// The index of the highlighted row, if the list has rows.
    pub open spec fn selection(&self) -> Option<nat> {
        if self.length() == 0 {
            None
        } else {
            Some(self.index())
        }
    }

    /// The cursor on the first row of a list of `length` rows.
    pub fn new(length: usize) -> (cursor: Self)
        ensures
            cursor.length() == length,
            cursor.index() == 0,
    {
        SelectionCursor { index: 0, length }
    }

    /// The number of rows of the list.
    pub fn len(&self) -> (n: usize)
        ensures
            n == self.length(),
    {
        self.length
    }

    /// The index of the highlighted row, or `None` in an empty list.
    pub fn selected(&self) -> (row: Option<usize>)
        ensures
            row is Some <==> self.length() > 0,
            row is Some ==> row->0 == self.index() && row->0 < self.length(),
            self.selection() == match row {
                Some(i) => Some(i as nat),
                None => None,
            },
    {
        proof {
            use_type_invariant(self);
        }
        if self.length == 0 {
            None
        } else {
            Some(self.index)
        }
    }

    /// Moves to the next row, and from the last row to the first. Does
    /// nothing in an empty list.
    pub fn move_down(&mut self)
        ensures
            final(self).length() == old(self).length(),
            final(self).index() == index_down(old(self).index(), old(self).length()),
            old(self).length() == 0 ==> final(self).index() == old(self).index(),
            old(self).length() > 0 && old(self).index() == old(self).length() - 1 ==> final(self).index() == 0,
            old(self).length() > 0 && old(self).index() < old(self).length() - 1 ==> final(self).index() == old(self).index() + 1,
    {
        proof {
            use_type_invariant(&*self);
            if self.length > 0 {
                lemma_index_wraps(self.index as nat, self.length as nat);
            }
        }
        if self.length == 0 {
            return ;
        }
        if self.index >= self.length - 1 {
            self.index = 0;
        } else {
            self.index = self.index + 1;
        }
    }

    /// Moves to the row before, and from the first row to the last. Does
    /// nothing in an empty list.
    pub fn move_up(&mut self)
        ensures
            final(self).length() == old(self).length(),
            final(self).index() == index_up(old(self).index(), old(self).length()),
            old(self).length() == 0 ==> final(self).index() == old(self).index(),
            old(self).length() > 0 && old(self).index() == 0 ==> final(self).index() == old(self).length() - 1,
            old(self).length() > 0 && old(self).index() > 0 ==> final(self).index() == old(self).index() - 1,
    {
        proof {
            use_type_invariant(&*self);
            if self.length > 0 {
                lemma_index_wraps(self.index as nat, self.length as nat);
            }
        }
        if self.length == 0 {
            return ;
        }
        if self.index > 0 {
            self.index = self.index - 1;
        } else {
            self.index = self.length - 1;
        }
    }
}

} // verus!
