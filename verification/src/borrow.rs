//! The borrow discipline of one channel: any number of readers, or one
//! writer, never both. Conflicts are found when a borrow is asked for and
//! are answered at once; nothing waits.

use vstd::prelude::*;

verus! {

/// Who holds a channel at the moment.
#[derive(Clone, Copy, PartialEq, Eq, Hash, Debug, Structural)]
pub enum BorrowState {
    /// Nobody.
    Free,
    /// That many readers, at least one.
    Shared(u64),
    /// One writer.
    Exclusive,
}

impl BorrowState {
    /// A shared state counts at least one reader.
    pub open spec fn wf(self) -> bool {
        self matches BorrowState::Shared(n) ==> n >= 1
    }

    /// The number of readers.
    pub open spec fn readers(self) -> nat {
        match self {
            BorrowState::Shared(n) => n as nat,
            _ => 0,
        }
    }

    /// The state in which exactly `n` readers hold the channel.
    pub open spec fn with_readers(n: nat) -> BorrowState {
        if n == 0 {
            BorrowState::Free
        } else {
            BorrowState::Shared(n as u64)
        }
    }

    /// The state after one more reader is let in, if one can be: a writer
    /// keeps readers out, and the count of readers has a largest value.
    pub open spec fn spec_acquire_read(self) -> Option<BorrowState> {
        match self {
            BorrowState::Free => Some(BorrowState::Shared(1)),
            BorrowState::Shared(n) => if n < u64::MAX {
                Some(BorrowState::Shared((n + 1) as u64))
            } else {
                None
            },
            BorrowState::Exclusive => None,
        }
    }

    /// The state after a writer is let in, if one can be: only a free
    /// channel takes a writer.
    pub open spec fn spec_acquire_write(self) -> Option<BorrowState> {
        match self {
            BorrowState::Free => Some(BorrowState::Exclusive),
            _ => None,
        }
    }

    /// The state after one reader has left, if there was one.
    pub open spec fn spec_release_read(self) -> Option<BorrowState> {
        match self {
            BorrowState::Shared(n) => if n <= 1 {
                Some(BorrowState::Free)
            } else {
                Some(BorrowState::Shared((n - 1) as u64))
            },
            _ => None,
        }
    }

    /// The state after the writer has left, if there was one.
    pub open spec fn spec_release_write(self) -> Option<BorrowState> {
        match self {
            BorrowState::Exclusive => Some(BorrowState::Free),
            _ => None,
        }
    }

    pub fn acquire_read(self) -> (r: Option<BorrowState>)
        ensures
            r == self.spec_acquire_read(),
    {
        match self {
            BorrowState::Free => Some(BorrowState::Shared(1)),
            BorrowState::Shared(n) => if n < u64::MAX {
                Some(BorrowState::Shared(n + 1))
            } else {
                None
            },
            BorrowState::Exclusive => None,
        }
    }

    pub fn acquire_write(self) -> (r: Option<BorrowState>)
        ensures
            r == self.spec_acquire_write(),
    {
        match self {
            BorrowState::Free => Some(BorrowState::Exclusive),
            _ => None,
        }
    }

    pub fn release_read(self) -> (r: Option<BorrowState>)
        ensures
            r == self.spec_release_read(),
    {
        match self {
            BorrowState::Shared(n) => if n <= 1 {
                Some(BorrowState::Free)
            } else {
                Some(BorrowState::Shared(n - 1))
            },
            _ => None,
        }
    }

    pub fn release_write(self) -> (r: Option<BorrowState>)
        ensures
            r == self.spec_release_write(),
    {
        match self {
            BorrowState::Exclusive => Some(BorrowState::Free),
            _ => None,
        }
    }

    /// While a writer holds the channel, neither a reader nor a second
    /// writer is let in.
    pub proof fn lemma_writer_excludes(self)
        requires
            self == BorrowState::Exclusive,
        ensures
            self.spec_acquire_read() is None,
            self.spec_acquire_write() is None,
    {
    }

    /// Once the writer has left, a reader is let in, and so is a writer.
    pub proof fn lemma_writer_leaves(self)
        requires
            self == BorrowState::Exclusive,
        ensures
            self.spec_release_write() is Some,
            self.spec_release_write().unwrap().spec_acquire_read() is Some,
            self.spec_release_write().unwrap().spec_acquire_write() is Some,
    {
    }

    /// However many readers hold the channel, one more is let in, up to the
    /// largest count; the readers before it stay.
    pub proof fn lemma_readers_share(n: nat)
        requires
            n < u64::MAX,
        ensures
            BorrowState::with_readers(n).spec_acquire_read() == Some(
                BorrowState::with_readers(n + 1),
            ),
    {
    }

    /// While a reader holds the channel, no writer is let in; a reader that
    /// leaves undoes what its coming did.
    pub proof fn lemma_readers_exclude_writer(self)
        requires
            self.wf(),
            self.readers() >= 1,
        ensures
            self.spec_acquire_write() is None,
            self.spec_acquire_read() is Some ==> self.spec_acquire_read().unwrap().spec_release_read()
                == Some(self),
    {
    }

    /// Every step keeps the state well formed.
    pub proof fn lemma_steps_keep_wf(self)
        requires
            self.wf(),
        ensures
            self.spec_acquire_read() is Some ==> self.spec_acquire_read().unwrap().wf(),
            self.spec_acquire_write() is Some ==> self.spec_acquire_write().unwrap().wf(),
            self.spec_release_read() is Some ==> self.spec_release_read().unwrap().wf(),
            self.spec_release_write() is Some ==> self.spec_release_write().unwrap().wf(),
    {
    }
}

} // verus!
