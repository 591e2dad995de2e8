//! One channel together with its borrow state, as a group keeps it. While a
//! writer holds the channel the cell is empty: the writer has the channel
//! and hands it back when done.

use crate::borrow::BorrowState;
use crate::channel::DynChannel;
use crate::tags::{ChannelKeyType, ChannelValueType};
use vstd::prelude::*;

verus! {

/// A channel and who holds it.
#[derive(Debug)]
pub struct ChannelCell {
    channel: Option<DynChannel>,
    borrow: BorrowState,
}

impl ChannelCell {
    /// Who holds the channel.
    pub closed spec fn state(&self) -> BorrowState {
        self.borrow
    }

    /// The channel, unless a writer has it.
    pub closed spec fn content(&self) -> Option<DynChannel> {
        self.channel
    }

    /// The cell of a free channel.
    pub open spec fn free(channel: DynChannel) -> ChannelCell {
        ChannelCell::of(Some(channel), BorrowState::Free)
    }

    /// The cell with the given content and state.
    pub closed spec fn of(content: Option<DynChannel>, state: BorrowState) -> ChannelCell {
        ChannelCell { channel: content, borrow: state }
    }

    /// A cell is what its content and state are.
    pub proof fn lemma_of(self)
        ensures
            self == ChannelCell::of(self.content(), self.state()),
            forall|c: Option<DynChannel>, s: BorrowState|
                #![trigger ChannelCell::of(c, s)]
                ChannelCell::of(c, s).content() == c && ChannelCell::of(c, s).state() == s,
    {
    }

    /// The cell is empty exactly while a writer holds the channel, and a
    /// channel in it is well formed and of the given kind and type.
    pub open spec fn wf(&self, kty: ChannelKeyType, vty: ChannelValueType) -> bool {
        &&& self.state().wf()
        &&& self.content() is None <==> self.state() == BorrowState::Exclusive
        &&& self.content() is Some ==> {
            &&& self.content().unwrap().wf()
            &&& self.content().unwrap().spec_key_type() == kty
            &&& self.content().unwrap().spec_value_type() == vty
        }
    }

    /// The cell of a channel that nobody holds.
    pub fn new(channel: DynChannel) -> (c: ChannelCell)
        ensures
            c == ChannelCell::free(channel),
            c.content() == Some(channel),
            c.state() == BorrowState::Free,
    {
        ChannelCell { channel: Some(channel), borrow: BorrowState::Free }
    }

    pub fn borrow_state(&self) -> (s: BorrowState)
        ensures
            s == self.state(),
    {
        self.borrow
    }

    /// The channel, for reading, unless a writer has it.
    pub fn peek(&self) -> (r: Option<&DynChannel>)
        ensures
            self.content() is Some ==> r is Some && *r.unwrap() == self.content().unwrap(),
            self.content() is None ==> r is None,
    {
        self.channel.as_ref()
    }

    /// Lets one more reader in, and answers whether it could.
    pub fn acquire_read(&mut self) -> (done: bool)
        ensures
            done == (old(self).state().spec_acquire_read() is Some),
            done ==> *final(self) == ChannelCell::of(
                old(self).content(),
                old(self).state().spec_acquire_read().unwrap(),
            ),
            !done ==> *final(self) == *old(self),
    {
        match self.borrow.acquire_read() {
            Some(next) => {
                self.borrow = next;
                true
            },
            None => false,
        }
    }

    /// Lets one reader go, and answers whether there was one.
    pub fn release_read(&mut self) -> (done: bool)
        ensures
            done == (old(self).state().spec_release_read() is Some),
            done ==> *final(self) == ChannelCell::of(
                old(self).content(),
                old(self).state().spec_release_read().unwrap(),
            ),
            !done ==> *final(self) == *old(self),
    {
        match self.borrow.release_read() {
            Some(next) => {
                self.borrow = next;
                true
            },
            None => false,
        }
    }

    /// Lets a writer in and hands it the channel, if the channel is free.
    pub fn acquire_write(&mut self) -> (r: Option<DynChannel>)
        ensures
            r is Some <==> old(self).state() == BorrowState::Free && old(self).content() is Some,
            r is Some ==> r == old(self).content() && *final(self) == ChannelCell::of(
                None,
                BorrowState::Exclusive,
            ),
            r is None ==> *final(self) == *old(self),
    {
        match self.borrow {
            BorrowState::Free => {
                let taken = self.channel.take();
                if taken.is_some() {
                    self.borrow = BorrowState::Exclusive;
                }
                taken
            },
            _ => None,
        }
    }

    /// Takes the channel back from the writer and frees the cell. A cell
    /// that no writer holds keeps what it has and hands `channel` back.
    pub fn release_write(&mut self, channel: DynChannel) -> (r: Option<DynChannel>)
        ensures
            r is None <==> old(self).state() == BorrowState::Exclusive,
            r is None ==> *final(self) == ChannelCell::free(channel),
            r is Some ==> r == Some(channel) && *final(self) == *old(self),
    {
        match self.borrow {
            BorrowState::Exclusive => {
                self.channel = Some(channel);
                self.borrow = BorrowState::Free;
                None
            },
            _ => Some(channel),
        }
    }

    /// The channel of a cell that is given up, unless a writer has it.
    pub fn into_channel(self) -> (r: Option<DynChannel>)
        ensures
            r == self.content(),
    {
        self.channel
    }
}

impl Clone for ChannelCell {
    /// A cell of its own with a copy of the channel, held by nobody. Where
    /// a writer has the channel there is nothing to copy: the cell made is
    /// empty like this one.
    fn clone(&self) -> (c: ChannelCell)
        ensures
            self.content() is None ==> c == ChannelCell::of(None, BorrowState::Exclusive),
            self.content() is Some ==> c.state() == BorrowState::Free && c.content() is Some
                && c.content().unwrap().table() == self.content().unwrap().table()
                && c.content().unwrap().spec_key_type() == self.content().unwrap().spec_key_type()
                && c.content().unwrap().spec_value_type()
                == self.content().unwrap().spec_value_type(),
    {
        match &self.channel {
            Some(channel) => ChannelCell { channel: Some(channel.clone()), borrow: BorrowState::Free },
            None => ChannelCell { channel: None, borrow: BorrowState::Exclusive },
        }
    }
}

} // verus!
