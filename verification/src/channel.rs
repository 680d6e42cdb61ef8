//! A byte channel with the two transfer operations of a kernel pipe: a
//! duplicate, which leaves the source as it was, and a drain, which removes
//! what it moves.
//!
//! Only an exclusive borrow can drain a channel. A [`DuplicateHandle`] holds a
//! shared borrow, so while one is alive no drain of that channel compiles.

use vstd::prelude::*;

verus! {

/// How many bytes a transfer of at most `max` bytes moves out of a channel
/// that holds `available` bytes.
pub open spec fn transfer_len(available: nat, max: nat) -> nat {
    if available <= max {
        available
    } else {
        max
    }
}

/// The bytes that a transfer of at most `max` bytes takes from `source`.
pub open spec fn moved(source: Seq<u8>, max: nat) -> Seq<u8> {
    source.take(transfer_len(source.len(), max) as int)
}

/// What a drain of at most `max` bytes leaves in `source`.
pub open spec fn remainder(source: Seq<u8>, max: nat) -> Seq<u8> {
    source.skip(transfer_len(source.len(), max) as int)
}

/// Appends the first `count` bytes of `source` to `target`.
fn append_prefix(target: &mut Vec<u8>, source: &Vec<u8>, count: usize)
    requires
        count <= source@.len(),
    ensures
        final(target)@ == old(target)@ + source@.take(count as int),
{
    let mut copied: usize = 0;
    while copied < count
        invariant
            copied <= count <= source@.len(),
            target@ == old(target)@ + source@.take(copied as int),
        decreases count - copied,
    {
        target.push(source[copied]);
        copied += 1;
        assert(source@.take(copied as int) == source@.take(copied - 1).push(source@[copied - 1]));
    }
}

/// Removes the first `count` bytes of `source`.
fn discard_prefix(source: &mut Vec<u8>, count: usize)
    requires
        count <= old(source)@.len(),
    ensures
        final(source)@ == old(source)@.skip(count as int),
{
    let mut kept: Vec<u8> = Vec::new();
    let mut at: usize = count;
    while at < source.len()
        invariant
            count <= at <= source@.len(),
            source@ == old(source)@,
            kept@ == source@.subrange(count as int, at as int),
        decreases source@.len() - at,
    {
        kept.push(source[at]);
        at += 1;
        assert(source@.subrange(count as int, at as int) == source@.subrange(
            count as int,
            at - 1,
        ).push(source@[at - 1]));
    }
    assert(kept@ == old(source)@.skip(count as int));
    *source = kept;
}

/// A first-in first-out buffer of bytes with a write end that can be closed.
pub struct ByteChannel {
    buffered: Vec<u8>,
    write_open: bool,
}

impl ByteChannel {
    /// The buffered bytes, oldest first.
    pub closed spec fn view(&self) -> Seq<u8> {
        self.buffered@
    }

    /// Whether the write end is still open.
    pub closed spec fn is_open(&self) -> bool {
        self.write_open
    }

    /// An empty channel whose write end is open.
    pub fn new() -> (channel: ByteChannel)
        ensures
            channel@ == Seq::<u8>::empty(),
            channel.is_open(),
    {
        ByteChannel { buffered: Vec::new(), write_open: true }
    }

    /// Number of buffered bytes.
    pub fn len(&self) -> (n: usize)
        ensures
            n == self@.len(),
    {
        self.buffered.len()
    }

    /// Whether the write end is still open.
    pub fn write_end_open(&self) -> (open: bool)
        ensures
            open == self.is_open(),
    {
        self.write_open
    }

    /// A copy of the buffered bytes, oldest first.
    pub fn contents(&self) -> (bytes: Vec<u8>)
        ensures
            bytes@ == self@,
    {
        let mut bytes: Vec<u8> = Vec::new();
        append_prefix(&mut bytes, &self.buffered, self.buffered.len());
        assert(self.buffered@.take(self.buffered@.len() as int) == self.buffered@);
        bytes
    }

    /// Writes `bytes` into the channel. A channel whose write end is closed
    /// takes nothing and answers `false`.
    pub fn feed(&mut self, bytes: &Vec<u8>) -> (accepted: bool)
        ensures
            accepted == old(self).is_open(),
            final(self).is_open() == old(self).is_open(),
            final(self)@ == if accepted {
                old(self)@ + bytes@
            } else {
                old(self)@
            },
    {
        if self.write_open {
            append_prefix(&mut self.buffered, bytes, bytes.len());
            assert(bytes@.take(bytes@.len() as int) == bytes@);
            true
        } else {
            false
        }
    }

    /// Closes the write end. What is buffered stays readable.
    pub fn close_write(&mut self)
        ensures
            !final(self).is_open(),
            final(self)@ == old(self)@,
    {
        self.write_open = false;
    }

    /// The duplicate-only view of this channel.
    pub fn duplicator(&self) -> (handle: DuplicateHandle<'_>)
        ensures
            handle@ == self@,
    {
        DuplicateHandle { source: self }
    }

    /// Moves at most `max` of the oldest bytes to the end of `target` and
    /// removes them from this channel. Returns how many were moved.
    pub fn drain_into(&mut self, target: &mut Vec<u8>, max: usize) -> (count: usize)
        ensures
            count == transfer_len(old(self)@.len(), max as nat),
            final(target)@ == old(target)@ + moved(old(self)@, max as nat),
            final(self)@ == remainder(old(self)@, max as nat),
            final(self).is_open() == old(self).is_open(),
    {
        let available = self.buffered.len();
        let count = if available <= max {
            available
        } else {
            max
        };
        append_prefix(target, &self.buffered, count);
        discard_prefix(&mut self.buffered, count);
        count
    }

    /// Takes at most `max` of the oldest bytes out of this channel and hands
    /// them over.
    pub fn drain(&mut self, max: usize) -> (bytes: Vec<u8>)
        ensures
            bytes@ == moved(old(self)@, max as nat),
            final(self)@ == remainder(old(self)@, max as nat),
            final(self).is_open() == old(self).is_open(),
    {
        let mut bytes: Vec<u8> = Vec::new();
        let _ = self.drain_into(&mut bytes, max);
        bytes
    }
}

/// The duplicate-only view of a channel: it can copy what is buffered and
/// cannot remove it.
pub struct DuplicateHandle<'a> {
    source: &'a ByteChannel,
}

impl<'a> DuplicateHandle<'a> {
    /// The bytes buffered in the channel behind this handle.
    pub closed spec fn view(&self) -> Seq<u8> {
        self.source@
    }

    /// Number of bytes buffered in the channel behind this handle.
    pub fn len(&self) -> (n: usize)
        ensures
            n == self@.len(),
    {
        self.source.len()
    }

    /// Copies at most `max` of the oldest buffered bytes to the end of
    /// `target`. The source keeps all of them. Returns how many were copied.
    pub fn duplicate_into(&self, target: &mut ByteChannel, max: usize) -> (count: usize)
        ensures
            count == transfer_len(self@.len(), max as nat),
            final(target)@ == old(target)@ + moved(self@, max as nat),
            final(target).is_open() == old(target).is_open(),
    {
        let available = self.source.buffered.len();
        let count = if available <= max {
            available
        } else {
            max
        };
        append_prefix(&mut target.buffered, &self.source.buffered, count);
        count
    }
}

} // verus!
