use vstd::prelude::*;

verus! {

/// A 32-byte account address.
#[derive(Clone, Copy, Debug, Eq)]
pub struct AccountRef {
    pub key: [u8; 32],
}

impl PartialEq for AccountRef {
    fn eq(&self, other: &AccountRef) -> (r: bool) {
        let mut i: usize = 0;
        while i < 32
            invariant
                i <= 32,
                forall|j: int| 0 <= j < i ==> self.key[j] == other.key[j],
            decreases 32 - i,
        {
            if self.key[i] != other.key[i] {
                return false;
            }
            i += 1;
        }
        proof {
            assert(self.key =~= other.key);
        }
        true
    }
}

impl vstd::std_specs::cmp::PartialEqSpecImpl for AccountRef {
    open spec fn obeys_eq_spec() -> bool {
        true
    }

    open spec fn eq_spec(&self, other: &AccountRef) -> bool {
        *self == *other
    }
}

/// True where `key` is one of `accounts`.
pub fn contains_ref(accounts: &Vec<AccountRef>, key: &AccountRef) -> (r: bool)
    ensures
        r == accounts@.contains(*key),
{
    let mut i: usize = 0;
    while i < accounts.len()
        invariant
            i <= accounts@.len(),
            forall|j: int| 0 <= j < i ==> accounts@[j] != *key,
        decreases accounts@.len() - i,
    {
        if accounts[i] == *key {
            return true;
        }
        i += 1;
    }
    false
}

} // verus!
