use vstd::prelude::*;

verus! {

/// Length in bytes of a participant identity.
pub const ACCOUNT_ID_LEN: usize = 32;

/// Opaque identity of a participant, as supplied by the host for each call.
/// Identities are only ever compared for equality.
#[derive(Clone, Copy, Debug, Hash)]
pub struct AccountId {
    pub bytes: [u8; 32],
}

impl AccountId {
    /// Wraps the raw 32 bytes of an identity.
    pub fn new(bytes: [u8; 32]) -> (r: AccountId)
        ensures
            r.bytes == bytes,
    {
        AccountId { bytes }
    }

    /// The raw bytes of the identity.
    pub fn to_bytes(&self) -> (r: [u8; 32])
        ensures
            r == self.bytes,
    {
        self.bytes
    }
}

impl PartialEq for AccountId {
    fn eq(&self, o: &AccountId) -> (r: bool) {
        let mut i: usize = 0;
        while i < ACCOUNT_ID_LEN
            invariant
                i <= ACCOUNT_ID_LEN,
                forall|j: int| 0 <= j < i ==> self.bytes[j] == o.bytes[j],
            decreases ACCOUNT_ID_LEN - i,
        {
            if self.bytes[i] != o.bytes[i] {
                return false;
            }
            i = i + 1;
        }
        proof {
            broadcast use vstd::array::group_array_axioms;
            assert(self.bytes =~= o.bytes);
        }
        true
    }
}

impl vstd::std_specs::cmp::PartialEqSpecImpl for AccountId {
    open spec fn obeys_eq_spec() -> bool {
        true
    }

    open spec fn eq_spec(&self, o: &AccountId) -> bool {
        *self == *o
    }
}

impl Eq for AccountId {

}

} // verus!
