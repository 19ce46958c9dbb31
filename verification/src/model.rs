use vstd::prelude::*;

verus! {

/// The ghost image of one ledger account as this program observes it:
/// its address, whether its holder signed the current call, its balance
/// in lamports, the program that owns it, and its stored bytes.
#[verifier::ext_equal]
pub ghost struct AccountModel {
    pub key: Seq<u8>,
    pub is_signer: bool,
    pub lamports: u64,
    pub owner: Seq<u8>,
    pub data: Seq<u8>,
}

/// One entry of the account list a call receives: the plain values the
/// host hands the program for that account.
#[derive(Clone)]
pub struct AccountRecord {
    /// The account's address.
    pub key: [u8; 32],
    /// Whether the holder of `key` signed the call.
    pub is_signer: bool,
    /// The account's balance.
    pub lamports: u64,
    /// The program that owns the account.
    pub owner: [u8; 32],
    /// The account's stored bytes.
    pub data: Vec<u8>,
}

impl View for AccountRecord {
    type V = AccountModel;

    open spec fn view(&self) -> AccountModel {
        AccountModel {
            key: self.key@,
            is_signer: self.is_signer,
            lamports: self.lamports,
            owner: self.owner@,
            data: self.data@,
        }
    }
}

/// The ghost image of a whole account list.
pub open spec fn models_of(accounts: Seq<AccountRecord>) -> Seq<AccountModel> {
    accounts.map_values(|a: AccountRecord| a@)
}

/// Compares two addresses byte for byte.
pub fn keys_equal(a: &[u8; 32], b: &[u8; 32]) -> (r: bool)
    ensures
        r == (a@ == b@),
{
    let mut i: usize = 0;
    while i < 32
        invariant
            i <= 32,
            forall|j: int| 0 <= j < i ==> a@[j] == b@[j],
        decreases 32 - i,
    {
        if a[i] != b[i] {
            return false;
        }
        i = i + 1;
    }
    proof {
        assert(a@ =~= b@);
    }
    true
}

} // verus!
