use vstd::prelude::*;

verus! {

/// An OS resource handle, tagged with its kind. The payload is the raw
/// handle value as the OS hands it out.
#[derive(Debug, Clone, Copy, PartialEq, Eq, Structural)]
pub enum AnyHandle {
    HWND(usize),
    HFONT(usize),
    HMENU(usize),
}

/// Number of distinct raw handle values a single kind can take.
pub open spec fn kind_span() -> int {
    0x1_0000_0000_0000_0000
}

impl AnyHandle {
    /// Position of the kind tag in the packed key.
    pub open spec fn tag(self) -> int {
        match self {
            AnyHandle::HWND(_) => 0,
            AnyHandle::HFONT(_) => 1,
            AnyHandle::HMENU(_) => 2,
        }
    }

    pub open spec fn raw(self) -> usize {
        match self {
            AnyHandle::HWND(v) => v,
            AnyHandle::HFONT(v) => v,
            AnyHandle::HMENU(v) => v,
        }
    }

    /// The kind tag and the raw value packed into one integer.
    pub open spec fn spec_key(self) -> u128 {
        (self.tag() * kind_span() + self.raw()) as u128
    }

    /// Key under which the reverse index stores this handle.
    pub fn key(&self) -> (r: u128)
        ensures
            r == self.spec_key(),
    {
        match *self {
            AnyHandle::HWND(v) => v as u128,
            AnyHandle::HFONT(v) => 0x1_0000_0000_0000_0000u128 + v as u128,
            AnyHandle::HMENU(v) => 0x2_0000_0000_0000_0000u128 + v as u128,
        }
    }

    /// Two handles share a key only when they are the same handle.
    pub proof fn lemma_key_injective(self, other: AnyHandle)
        ensures
            self.spec_key() == other.spec_key() <==> self == other,
    {
    }
}

} // verus!
