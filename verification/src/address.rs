use vstd::prelude::*;

verus! {

/// The identity of an account, a user or a token type: 32 opaque bytes.
#[derive(Clone, Copy, Debug, Eq)]
pub struct Address {
    pub bytes: [u8; 32],
}

impl View for Address {
    type V = Seq<u8>;

    open spec fn view(&self) -> Seq<u8> {
        self.bytes@
    }
}

impl PartialEq for Address {
    fn eq(&self, other: &Address) -> (same: bool) {
        let mut i: usize = 0;
        while i < 32
            invariant
                i <= 32,
                forall|k: int| 0 <= k < i ==> self.bytes[k] == other.bytes[k],
            decreases 32 - i,
        {
            if self.bytes[i] != other.bytes[i] {
                return false;
            }
            i += 1;
        }
        proof {
            assert(self.bytes@ =~= other.bytes@);
            assert(self.bytes == other.bytes);
        }
        true
    }
}

impl vstd::std_specs::cmp::PartialEqSpecImpl for Address {
    open spec fn obeys_eq_spec() -> bool {
        true
    }

    open spec fn eq_spec(&self, other: &Address) -> bool {
        *self == *other
    }
}

impl Address {
    /// Every byte is zero. No user and no account has this address; it is
    /// what a newly allocated record holds in place of an owner.
    pub open spec fn spec_is_unset(self) -> bool {
        forall|k: int| 0 <= k < 32 ==> self.bytes[k] == 0
    }

    /// Whether every byte is zero.
    pub fn is_unset(&self) -> (unset: bool)
        ensures
            unset == self.spec_is_unset(),
    {
        let mut i: usize = 0;
        while i < 32
            invariant
                i <= 32,
                forall|k: int| 0 <= k < i ==> self.bytes[k] == 0,
            decreases 32 - i,
        {
            if self.bytes[i] != 0 {
                return false;
            }
            i += 1;
        }
        true
    }
}

} // verus!
