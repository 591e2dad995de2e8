//! Generational handles: an index into an arena together with the generation
//! of the slot it was issued for, so that a handle to a removed element never
//! passes for the element that took its slot.

use vstd::prelude::*;

verus! {

/// An arena index paired with a slot generation. Generations of issued
/// handles are odd; the handle with the largest index is the null handle,
/// which names no element.
#[derive(Clone, Copy, PartialEq, Eq, PartialOrd, Ord, Hash, Debug, Structural)]
pub struct Handle {
    idx: u32,
    version: u32,
}

/// The index that the 64-bit encoding `key` carries in its low half.
pub open spec fn key_index(key: u64) -> u32 {
    (key & 0xffff_ffff) as u32
}

/// The generation that the 64-bit encoding `key` carries in its high half,
/// forced odd.
pub open spec fn key_version(key: u64) -> u32 {
    ((key >> 32) | 1) as u32
}

/// Whether `key` is an encoding that a handle produces: its generation is odd
/// already.
pub open spec fn is_canonical(key: u64) -> bool {
    (key >> 32) & 1 == 1
}

/// Index and generation determine the encoding, and the encoding of a handle
/// with an odd generation gives both back.
pub proof fn lemma_encoding(idx: u32, version: u32)
    requires
        version % 2 == 1,
    ensures
        is_canonical(((version as u64) << 32) | (idx as u64)),
        key_index(((version as u64) << 32) | (idx as u64)) == idx,
        key_version(((version as u64) << 32) | (idx as u64)) == version,
{
    assert(version & 1 == 1) by (bit_vector)
        requires
            version % 2 == 1,
    ;
    let key = ((version as u64) << 32) | (idx as u64);
    assert((key >> 32) & 1 == 1 && (key & 0xffff_ffff) as u32 == idx && ((key >> 32) | 1) as u32
        == version) by (bit_vector)
        requires
            version & 1 == 1,
            key == ((version as u64) << 32) | (idx as u64),
    ;
}

/// A canonical encoding is rebuilt from its index and generation.
pub proof fn lemma_decoding(key: u64)
    ensures
        key_version(key) % 2 == 1,
        is_canonical(key) ==> ((key_version(key) as u64) << 32) | (key_index(key) as u64) == key,
{
    let v = ((key >> 32) | 1) as u32;
    let i = (key & 0xffff_ffff) as u32;
    assert(v % 2 == 1) by (bit_vector)
        requires
            v == ((key >> 32) | 1) as u32,
    ;
    assert((key >> 32) & 1 == 1 ==> ((v as u64) << 32) | (i as u64) == key) by (bit_vector)
        requires
            v == ((key >> 32) | 1) as u32,
            i == (key & 0xffff_ffff) as u32,
    ;
}

impl Handle {
    /// The arena index.
    pub closed spec fn index(self) -> u32 {
        self.idx
    }

    /// The slot generation.
    pub closed spec fn generation(self) -> u32 {
        self.version
    }

    /// A handle is valid when its generation is odd. Every handle that
    /// executable code holds is valid.
    #[verifier::type_invariant]
    pub open spec fn wf(self) -> bool {
        self.generation() % 2 == 1
    }

    pub open spec fn spec_is_null(self) -> bool {
        self.index() == u32::MAX
    }

    /// Generation in the high half, index in the low half.
    pub open spec fn spec_as_ffi(self) -> u64 {
        ((self.generation() as u64) << 32) | (self.index() as u64)
    }

    /// The handle that a 64-bit encoding stands for: the index in its low
    /// half, the generation in its high half, forced odd.
    pub closed spec fn spec_from_ffi(key: u64) -> Handle {
        Handle { idx: key_index(key), version: key_version(key) }
    }

    /// The null handle: no element is ever issued it.
    pub fn null() -> (h: Handle)
        ensures
            h.wf(),
            h.spec_is_null(),
            h.generation() == 1,
    {
        Handle { idx: u32::MAX, version: 1 }
    }

    /// The arena index.
    pub fn idx(&self) -> (i: u32)
        ensures
            i == self.index(),
    {
        self.idx
    }

    /// The slot generation.
    pub fn version(&self) -> (v: u32)
        ensures
            v == self.generation(),
            v % 2 == 1,
    {
        proof {
            use_type_invariant(self);
        }
        self.version
    }

    pub fn is_null(&self) -> (b: bool)
        ensures
            b == self.spec_is_null(),
    {
        self.idx == u32::MAX
    }

    /// The handle as one 64-bit number, fit to be passed through foreign code
    /// and turned back by `from_ffi`.
    pub fn as_ffi(&self) -> (key: u64)
        ensures
            key == self.spec_as_ffi(),
            self.wf(),
            is_canonical(key),
            key_index(key) == self.index(),
            key_version(key) == self.generation(),
    {
        proof {
            use_type_invariant(self);
            lemma_encoding(self.idx, self.version);
        }
        ((self.version as u64) << 32) | (self.idx as u64)
    }

    /// The handle that `key` encodes. Any number is accepted: an even
    /// generation is taken for the odd one above it.
    pub fn from_ffi(key: u64) -> (h: Handle)
        ensures
            h == Handle::spec_from_ffi(key),
            h.wf(),
            h.index() == key_index(key),
            h.generation() == key_version(key),
            is_canonical(key) ==> h.spec_as_ffi() == key,
    {
        proof {
            lemma_decoding(key);
        }
        let idx: u32 = (key & 0xffff_ffff) as u32;
        let version: u32 = ((key >> 32) | 1) as u32;
        Handle { idx, version }
    }

    /// Two valid handles with one encoding are one handle.
    pub proof fn lemma_as_ffi_injective(a: Handle, b: Handle)
        requires
            a.wf(),
            b.wf(),
            a.spec_as_ffi() == b.spec_as_ffi(),
        ensures
            a == b,
    {
        lemma_encoding(a.idx, a.version);
        lemma_encoding(b.idx, b.version);
    }

    /// What a decoded handle is made of.
    pub proof fn lemma_from_ffi(key: u64)
        ensures
            Handle::spec_from_ffi(key).wf(),
            Handle::spec_from_ffi(key).index() == key_index(key),
            Handle::spec_from_ffi(key).generation() == key_version(key),
    {
        lemma_decoding(key);
    }

    /// Decoding the encoding of a valid handle gives the handle back.
    pub proof fn lemma_ffi_round_trip(self)
        requires
            self.wf(),
        ensures
            Handle::spec_from_ffi(self.spec_as_ffi()) == self,
    {
        lemma_encoding(self.idx, self.version);
    }
}

impl Default for Handle {
    fn default() -> (h: Handle)
        ensures
            h.wf(),
            h.spec_is_null(),
            h.generation() == 1,
    {
        Handle::null()
    }
}

} // verus!
