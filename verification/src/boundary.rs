//! The boundary buffer protocol: who owns a heap buffer that crosses the
//! language boundary, and when it may be released.
//!
//! A *borrowed* buffer stays with the caller; here it is a plain `&[u8]` or
//! `&str`, so no release operation can even be applied to it. An *owned*
//! buffer is allocated on this side and handed across; the receiver must
//! trigger its one release, after which the buffer is dead and any further
//! read or release is ruled out by the contracts below.

use vstd::prelude::*;

verus! {

/// A heap buffer allocated by this library whose ownership transfers to the
/// caller across the boundary. Its lifecycle is allocate, read, release:
/// `release` demands a live buffer and leaves a dead one, so a second
/// release of the same buffer can never satisfy the protocol.
pub struct OwnedBuffer {
    data: Vec<u8>,
    released: bool,
}

impl OwnedBuffer {
    /// A buffer is live from its allocation until its one release.
    pub closed spec fn live(&self) -> bool {
        !self.released
    }

    /// The bytes the buffer carries across the boundary.
    pub closed spec fn contents(&self) -> Seq<u8> {
        self.data@
    }

    /// Allocate a fresh, live buffer holding `data`.
    pub fn new(data: Vec<u8>) -> (r: OwnedBuffer)
        ensures
            r.live(),
            r.contents() == data@,
    {
        OwnedBuffer { data, released: false }
    }

    /// Borrow the contents. Reading after the release would be a
    /// use-after-free, so only a live buffer can be read.
    pub fn bytes(&self) -> (r: &Vec<u8>)
        requires
            self.live(),
        ensures
            r@ == self.contents(),
    {
        &self.data
    }

    /// The one release operation of the protocol. It demands a live buffer
    /// and leaves a dead one whose storage is given back.
    pub fn release(&mut self)
        requires
            old(self).live(),
        ensures
            release_transition(*old(self), *final(self)),
    {
        self.released = true;
        self.data = Vec::new();
    }
}

/// How `release` relates a buffer before and after the call: it consumes a
/// live buffer and leaves a dead one.
pub open spec fn release_transition(pre: OwnedBuffer, post: OwnedBuffer) -> bool {
    pre.live() && !post.live()
}

/// Law: a release is final. Whatever state a released buffer is in, no
/// second release transition can start from it, so each owned buffer is
/// released at most once on any verified path.
pub proof fn lemma_release_once(a: OwnedBuffer, b: OwnedBuffer, c: OwnedBuffer)
    requires
        release_transition(a, b),
    ensures
        !release_transition(b, c),
{
}

} // verus!
