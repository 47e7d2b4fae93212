use vstd::prelude::*;

use crate::error::PumpFunError;

verus! {

/// A 32-byte account address, as the ledger writes it.
#[derive(Clone, Copy, Debug, PartialEq, Eq)]
pub struct Address {
    pub bytes: [u8; 32],
}

/// Bytes of the wrapped-native mint, `So11111111111111111111111111111111111111112`.
pub open spec fn native_mint_bytes() -> Seq<u8> {
    seq![
        6u8, 155u8, 136u8, 87u8, 254u8, 171u8, 129u8, 132u8, 251u8, 104u8, 127u8, 99u8, 70u8, 24u8, 192u8, 53u8,
        218u8, 196u8, 57u8, 220u8, 26u8, 235u8, 59u8, 85u8, 152u8, 160u8, 240u8, 0u8, 0u8, 0u8, 0u8, 1u8,
    ]
}

impl Address {
    /// The wrapped-native mint.
    pub fn native_mint() -> (r: Address)
        ensures
            r.bytes@ == native_mint_bytes(),
    {
        let r = Address {
            bytes: [
                6, 155, 136, 87, 254, 171, 129, 132, 251, 104, 127, 99, 70, 24, 192, 53,
                218, 196, 57, 220, 26, 235, 59, 85, 152, 160, 240, 0, 0, 0, 0, 1,
            ],
        };
        assert(r.bytes@ =~= native_mint_bytes());
        r
    }

    /// Whether this is the wrapped-native mint.
    pub fn is_native_mint(&self) -> (r: bool)
        ensures
            r == (self.bytes@ == native_mint_bytes()),
    {
        let native = Address::native_mint();
        let mut i: usize = 0;
        while i < 32
            invariant
                i <= 32,
                native.bytes@ == native_mint_bytes(),
                forall|j: int| 0 <= j < i ==> self.bytes@[j] == native_mint_bytes()[j],
            decreases 32 - i,
        {
            if self.bytes[i] != native.bytes[i] {
                return false;
            }
            i = i + 1;
        }
        assert(self.bytes@ =~= native_mint_bytes());
        true
    }
}

/// What the balance rules read of a token account: its mint and its balance.
#[derive(Clone, Copy, Debug)]
pub struct TokenAccountState {
    pub mint: Address,
    pub amount: u64,
}

/// Whether a token account can cover `require_amount`. An account of the
/// wrapped-native mint always can, since its balance is topped up from the
/// owner's native balance before use.
pub fn check_balance(ata: &TokenAccountState, require_amount: u64) -> (r: bool)
    ensures
        r == (ata.mint.bytes@ == native_mint_bytes() || ata.amount >= require_amount),
{
    if ata.mint.is_native_mint() {
        return true;
    }
    if ata.amount < require_amount {
        return false;
    }
    true
}

/// Native amount to move into a wrapped-native account so that it holds
/// `require_amount`: the shortfall below `require_amount`, or zero when the
/// balance already covers it. A positive shortfall must be covered by the
/// owner's native balance.
pub fn native_sync_amount(ata_balance: u64, require_amount: u64, owner_lamports: u64) -> (r: Result<u64, PumpFunError>)
    ensures
        require_amount <= ata_balance ==> r == Ok::<u64, PumpFunError>(0),
        require_amount > ata_balance && owner_lamports >= require_amount - ata_balance
            ==> r == Ok::<u64, PumpFunError>((require_amount - ata_balance) as u64),
        require_amount > ata_balance && owner_lamports < require_amount - ata_balance
            ==> r == Err::<u64, PumpFunError>(PumpFunError::InsufficientFund),
{
    let mut sync_amount: u64 = 0;
    if require_amount > ata_balance {
        sync_amount = require_amount - ata_balance;
    }
    if sync_amount != 0 && owner_lamports < sync_amount {
        return Err(PumpFunError::InsufficientFund);
    }
    Ok(sync_amount)
}

} // verus!
