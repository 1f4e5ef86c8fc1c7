use vstd::prelude::*;
use crate::address::AccountRef;
use crate::types::{MatchError, ProgramError};

verus! {

/// A token account: who it belongs to, which mint it is of and what it
/// holds.
#[derive(Clone, Copy, Debug)]
pub struct TokenAccount {
    pub address: AccountRef,
    pub owner: AccountRef,
    pub mint: AccountRef,
    /// Balance in native units.
    pub amount: u64,
}

/// Index of the first token account at or after `from` whose address is
/// `address`.
pub open spec fn first_token_from(s: Seq<TokenAccount>, address: AccountRef, from: int) -> Option<
    usize,
>
    decreases s.len() - from,
{
    if from < 0 || from >= s.len() {
        None
    } else if s[from].address == address {
        Some(from as usize)
    } else {
        first_token_from(s, address, from + 1)
    }
}

/// Index of the first token account whose address is `address`.
pub open spec fn first_token(s: Seq<TokenAccount>, address: AccountRef) -> Option<usize> {
    first_token_from(s, address, 0)
}

/// Index of the first token account whose address is `address`.
pub fn find_token(tokens: &Vec<TokenAccount>, address: &AccountRef) -> (r: Option<usize>)
    ensures
        r == first_token(tokens@, *address),
        r matches Some(i) ==> i < tokens@.len() && tokens@[i as int].address == *address,
{
    let mut i: usize = 0;
    while i < tokens.len()
        invariant
            i <= tokens@.len(),
            first_token(tokens@, *address) == first_token_from(tokens@, *address, i as int),
        decreases tokens@.len() - i,
    {
        if tokens[i].address == *address {
            return Some(i);
        }
        i += 1;
    }
    None
}

/// The balance of the token account at `address`, where there is one.
pub open spec fn balance_spec(s: Seq<TokenAccount>, address: AccountRef) -> Option<u64> {
    match first_token(s, address) {
        Some(i) => Some(s[i as int].amount),
        None => None,
    }
}

/// The most that can be moved from the account at index `from` to the one
/// at index `to`: what the one holds, as far as the other has room.
pub open spec fn movable(s: Seq<TokenAccount>, from: int, to: int) -> u64 {
    if from == to || s[from].amount <= u64::MAX - s[to].amount {
        s[from].amount
    } else {
        (u64::MAX - s[to].amount) as u64
    }
}

/// The token accounts after `amount` was moved from the account at index
/// `from` to the one at index `to`.
pub open spec fn moved(s: Seq<TokenAccount>, from: int, to: int, amount: u64) -> Seq<
    TokenAccount,
> {
    if from == to {
        s
    } else {
        s.update(from, TokenAccount { amount: (s[from].amount - amount) as u64, ..s[from] }).update(
            to,
            TokenAccount { amount: (s[to].amount + amount) as u64, ..s[to] },
        )
    }
}

/// Computes the most that can be moved from one account to another.
pub fn movable_amount(tokens: &Vec<TokenAccount>, from: usize, to: usize) -> (r: u64)
    requires
        from < tokens@.len(),
        to < tokens@.len(),
    ensures
        r == movable(tokens@, from as int, to as int),
{
    if from == to || tokens[from].amount <= u64::MAX - tokens[to].amount {
        tokens[from].amount
    } else {
        u64::MAX - tokens[to].amount
    }
}

/// Moves `amount` from the account at index `from` to the one at index
/// `to`.
pub fn move_tokens(tokens: &mut Vec<TokenAccount>, from: usize, to: usize, amount: u64)
    requires
        from < old(tokens)@.len(),
        to < old(tokens)@.len(),
        amount <= movable(old(tokens)@, from as int, to as int),
    ensures
        final(tokens)@ == moved(old(tokens)@, from as int, to as int, amount),
        final(tokens)@.len() == old(tokens)@.len(),
{
    if from != to {
        let a = tokens[from];
        let b = tokens[to];
        tokens.set(from, TokenAccount { amount: a.amount - amount, ..a });
        tokens.set(to, TokenAccount { amount: b.amount + amount, ..b });
    }
}

/// The token accounts after `amount` was moved from the account at `from`
/// to the one at `to`. Refused with `AccountNotFound` where one of the two
/// does not exist, and with `InsufficientFunds` where the amount is
/// negative, more than the one holds or more than the other has room for.
pub open spec fn try_moved(s: Seq<TokenAccount>, from: AccountRef, to: AccountRef, amount: i64) -> Result<
    Seq<TokenAccount>,
    ProgramError,
> {
    match (first_token(s, from), first_token(s, to)) {
        (Some(i), Some(j)) => if 0 <= amount <= movable(s, i as int, j as int) {
            Ok(moved(s, i as int, j as int, amount as u64))
        } else {
            Err(ProgramError::Match(MatchError::InsufficientFunds))
        },
        _ => Err(ProgramError::AccountNotFound),
    }
}

/// Moves `amount` from the account at `from` to the one at `to`, or
/// refuses and changes nothing.
pub fn try_move(tokens: &mut Vec<TokenAccount>, from: &AccountRef, to: &AccountRef, amount: i64) -> (r:
    Result<(), ProgramError>)
    ensures
        match try_moved(old(tokens)@, *from, *to, amount) {
            Ok(t) => r.is_ok() && final(tokens)@ == t,
            Err(e) => r == Err::<(), ProgramError>(e) && final(tokens)@ == old(tokens)@,
        },
        final(tokens)@.len() == old(tokens)@.len(),
{
    let i = match find_token(tokens, from) {
        Some(i) => i,
        None => {
            return Err(ProgramError::AccountNotFound);
        },
    };
    let j = match find_token(tokens, to) {
        Some(j) => j,
        None => {
            return Err(ProgramError::AccountNotFound);
        },
    };
    if amount < 0 || amount as u64 > movable_amount(tokens, i, j) {
        return Err(ProgramError::Match(MatchError::InsufficientFunds));
    }
    move_tokens(tokens, i, j, amount as u64);
    Ok(())
}

/// A copy of `tokens`.
pub fn copy_tokens(tokens: &Vec<TokenAccount>) -> (r: Vec<TokenAccount>)
    ensures
        r@ == tokens@,
{
    let mut out: Vec<TokenAccount> = Vec::new();
    let mut i: usize = 0;
    while i < tokens.len()
        invariant
            i <= tokens@.len(),
            out@ == tokens@.take(i as int),
        decreases tokens@.len() - i,
    {
        out.push(tokens[i]);
        proof {
            assert(tokens@.take(i + 1) =~= tokens@.take(i as int).push(tokens@[i as int]));
        }
        i += 1;
    }
    proof {
        assert(tokens@.take(tokens@.len() as int) =~= tokens@);
    }
    out
}

} // verus!
