//! Identities of accounts and of their holders.

use vstd::prelude::*;
use vstd::std_specs::cmp::PartialEqSpecImpl;

verus! {

/// The 32-byte identity of an account, a program or a signer.
#[derive(Debug, Clone, Copy, Eq)]
pub struct Pubkey {
    bytes: [u8; 32],
}

impl View for Pubkey {
    type V = Seq<u8>;

    closed spec fn view(&self) -> Seq<u8> {
        self.bytes@
    }
}

impl PartialEq for Pubkey {
    /// Two identities are the same if all their bytes are.
    fn eq(&self, other: &Pubkey) -> (same: bool) {
        let mut i: usize = 0;
        while i < 32
            invariant
                i <= 32,
                forall|j: int| 0 <= j < i ==> self.bytes@[j] == other.bytes@[j],
            decreases 32 - i,
        {
            if self.bytes[i] != other.bytes[i] {
                return false;
            }
            i += 1;
        }
        assert(self.bytes@ =~= other.bytes@);
        true
    }
}

impl PartialEqSpecImpl for Pubkey {
    open spec fn obeys_eq_spec() -> bool {
        true
    }

    open spec fn eq_spec(&self, other: &Pubkey) -> bool {
        self@ == other@
    }
}

impl Default for Pubkey {
    /// The identity whose bytes are all zero.
    fn default() -> (key: Pubkey)
        ensures
            key == Pubkey::zeroed(),
    {
        let key = Pubkey { bytes: [0u8; 32] };
        proof {
            Pubkey::zeroed().lemma_len();
            assert(key@ =~= Pubkey::zeroed()@);
            key.lemma_same_bytes(Pubkey::zeroed());
        }
        key
    }
}

impl Pubkey {
    /// The identity whose bytes are all zero, which names nobody.
    pub closed spec fn zeroed() -> Pubkey {
        Pubkey {
            bytes: [
                0, 0, 0, 0, 0, 0, 0, 0,
                0, 0, 0, 0, 0, 0, 0, 0,
                0, 0, 0, 0, 0, 0, 0, 0,
                0, 0, 0, 0, 0, 0, 0, 0,
            ],
        }
    }

    /// The identity with the given bytes.
    pub fn new_from_array(bytes: [u8; 32]) -> (key: Pubkey)
        ensures
            key@ == bytes@,
    {
        Pubkey { bytes }
    }

    /// The bytes of the identity.
    pub fn to_bytes(&self) -> (bytes: [u8; 32])
        ensures
            bytes@ == self@,
    {
        self.bytes
    }

    /// The identity whose bytes are the 32 bytes of `buf` from `at` on.
    pub fn read_from(buf: &[u8], at: usize) -> (key: Pubkey)
        requires
            at + 32 <= buf@.len(),
        ensures
            key@ == buf@.subrange(at as int, at + 32),
    {
        let mut bytes = [0u8; 32];
        let mut i: usize = 0;
        while i < 32
            invariant
                i <= 32,
                at + 32 <= buf.len(),
                forall|j: int| 0 <= j < i ==> bytes@[j] == buf@[at + j],
            decreases 32 - i,
        {
            bytes[i] = buf[at + i];
            i += 1;
        }
        assert(bytes@ =~= buf@.subrange(at as int, at + 32));
        Pubkey { bytes }
    }

    /// Every identity has exactly 32 bytes.
    pub proof fn lemma_len(self)
        ensures
            self@.len() == 32,
    {
    }

    /// An identity is its bytes: two with the same bytes are one.
    pub proof fn lemma_same_bytes(self, other: Pubkey)
        requires
            self@ == other@,
        ensures
            self == other,
    {
        assert(self.bytes =~= other.bytes);
    }
}

} // verus!
