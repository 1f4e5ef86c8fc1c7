use vstd::prelude::*;
use solana_program::pubkey::Pubkey;
use crate::address::AccountRef;

verus! {

/// The address that the program `program_id` owns under `seeds`, with the
/// bump seed that gives it; `None` where no bump seed gives one. What
/// `Pubkey::try_find_program_address` answers.
pub uninterp spec fn program_address(seeds: Seq<Seq<u8>>, program_id: Seq<u8>) -> Option<
    (Seq<u8>, u8),
>;

/// An address for a wallet, a mint or an account that has none yet. Calls
/// `Pubkey::new_unique`, which makes the address from a counter of the
/// process: nothing is known of the address here, not even that it differs
/// from one handed out before.
#[verifier::external_body]
pub(crate) fn unique_address() -> (r: AccountRef) {
    AccountRef { key: Pubkey::new_unique().to_bytes() }
}

/// The address that the program `program_id` owns under `seeds`, and its
/// bump seed. Calls `Pubkey::try_find_program_address`, whose answer
/// depends on the seeds and the program id alone.
#[verifier::external_body]
fn find_program_address(seeds: &Vec<Vec<u8>>, program_id: &AccountRef) -> (r: Option<
    (AccountRef, u8),
>)
    ensures
        match r {
            Some((a, bump)) => program_address(seeds.deep_view(), program_id.key@) == Some(
                (a.key@, bump),
            ),
            None => program_address(seeds.deep_view(), program_id.key@).is_none(),
        },
{
    let parts: Vec<&[u8]> = seeds.iter().map(|s| s.as_slice()).collect();
    Pubkey::try_find_program_address(&parts, &Pubkey::new_from_array(program_id.key)).map(
        |(a, bump)| (AccountRef { key: a.to_bytes() }, bump),
    )
}

/// Address of the token program. Reads `anchor_spl::token::ID`, which the
/// crate declares as `TokenkegQfeZyiNwAJbNbGKPFXCWuBvf9Ss623VQ5DA`: the
/// bytes claimed are that address decoded.
#[verifier::external_body]
fn token_program_id() -> (r: AccountRef)
    ensures
        r.key@ == token_program_bytes(),
{
    AccountRef { key: anchor_spl::token::ID.to_bytes() }
}

/// Address of the associated-token-account program. Calls
/// `spl_associated_token_account::id`, which answers the address that the
/// crate declares as `ATokenGPvbdGVxr1b2hvZbsiqW5xWH25efTNsLJA8knL`: the
/// bytes claimed are that address decoded.
#[verifier::external_body]
fn associated_token_program_id() -> (r: AccountRef)
    ensures
        r.key@ == associated_token_program_bytes(),
{
    AccountRef { key: spl_associated_token_account::id().to_bytes() }
}

/// The bytes of the token program's address.
pub open spec fn token_program_bytes() -> Seq<u8> {
    seq![
        6u8, 221u8, 246u8, 225u8, 215u8, 101u8, 161u8, 147u8, 217u8, 203u8, 225u8, 70u8, 206u8,
        235u8, 121u8, 172u8, 28u8, 180u8, 133u8, 237u8, 95u8, 91u8, 55u8, 145u8, 58u8, 140u8,
        245u8, 133u8, 126u8, 255u8, 0u8, 169u8,
    ]
}

/// The bytes of the associated-token-account program's address.
pub open spec fn associated_token_program_bytes() -> Seq<u8> {
    seq![
        140u8, 151u8, 37u8, 143u8, 78u8, 36u8, 137u8, 241u8, 187u8, 61u8, 16u8, 41u8, 20u8, 142u8,
        13u8, 131u8, 11u8, 90u8, 19u8, 153u8, 218u8, 255u8, 16u8, 132u8, 4u8, 142u8, 123u8, 216u8,
        219u8, 233u8, 248u8, 89u8,
    ]
}

/// Address of the token program.
pub fn token_program() -> (r: AccountRef)
    ensures
        r.key@ == token_program_bytes(),
{
    token_program_id()
}

/// Address of the associated-token-account program.
pub fn associated_token_program() -> (r: AccountRef)
    ensures
        r.key@ == associated_token_program_bytes(),
{
    associated_token_program_id()
}

/// The seeds of the token account that the associated-token-account
/// program keeps for `wallet` and `mint`: the wallet, the token program and
/// the mint.
pub open spec fn associated_token_seeds(wallet: AccountRef, mint: AccountRef) -> Seq<Seq<u8>> {
    seq![wallet.key@, token_program_bytes(), mint.key@]
}

/// Address of the order-book program, under which the addresses of
/// markets, oracles and open-orders accounts are derived.
pub fn program_id() -> (r: AccountRef)
    ensures
        r.key@ == program_id_bytes(),
{
    let r = AccountRef {
        key: [
            11,
            254,
            191,
            189,
            251,
            171,
            250,
            208,
            180,
            101,
            113,
            191,
            149,
            140,
            30,
            184,
            36,
            120,
            123,
            176,
            153,
            75,
            177,
            132,
            107,
            41,
            120,
            7,
            30,
            23,
            153,
            190,
        ],
    };
    assert(r.key@ =~= program_id_bytes());
    r
}

pub open spec fn program_id_bytes() -> Seq<u8> {
    seq![
        11u8,
        254u8,
        191u8,
        189u8,
        251u8,
        171u8,
        250u8,
        208u8,
        180u8,
        101u8,
        113u8,
        191u8,
        149u8,
        140u8,
        30u8,
        184u8,
        36u8,
        120u8,
        123u8,
        176u8,
        153u8,
        75u8,
        177u8,
        132u8,
        107u8,
        41u8,
        120u8,
        7u8,
        30u8,
        23u8,
        153u8,
        190u8,
    ]
}

/// The text "Market".
pub open spec fn market_tag() -> Seq<u8> {
    seq![77u8, 97u8, 114u8, 107u8, 101u8, 116u8]
}

/// The text "StubOracle".
pub open spec fn oracle_tag() -> Seq<u8> {
    seq![83u8, 116u8, 117u8, 98u8, 79u8, 114u8, 97u8, 99u8, 108u8, 101u8]
}

/// The text "OpenOrders".
pub open spec fn open_orders_tag() -> Seq<u8> {
    seq![79u8, 112u8, 101u8, 110u8, 79u8, 114u8, 100u8, 101u8, 114u8, 115u8]
}

/// The four bytes of `x`, lowest first.
pub open spec fn le_bytes_spec(x: u32) -> Seq<u8> {
    seq![
        (x % 256) as u8,
        (x / 256 % 256) as u8,
        (x / 65536 % 256) as u8,
        (x / 16777216) as u8,
    ]
}

/// The four bytes of `x`, lowest first.
pub fn le_bytes(x: u32) -> (r: Vec<u8>)
    ensures
        r@ == le_bytes_spec(x),
{
    let mut out: Vec<u8> = Vec::new();
    out.push((x % 256) as u8);
    out.push((x / 256 % 256) as u8);
    out.push((x / 65536 % 256) as u8);
    out.push((x / 16777216) as u8);
    assert(out@ =~= le_bytes_spec(x));
    out
}

/// The bytes of an address.
pub fn key_bytes(a: &AccountRef) -> (r: Vec<u8>)
    ensures
        r@ == a.key@,
{
    let mut out: Vec<u8> = Vec::new();
    let mut i: usize = 0;
    while i < 32
        invariant
            i <= 32,
            out@ == a.key@.take(i as int),
        decreases 32 - i,
    {
        out.push(a.key[i]);
        assert(a.key@.take(i + 1) =~= a.key@.take(i as int).push(a.key@[i as int]));
        i += 1;
    }
    assert(a.key@.take(32) =~= a.key@);
    out
}

fn tag_market() -> (r: Vec<u8>)
    ensures
        r@ == market_tag(),
{
    let r: Vec<u8> = vec![77u8, 97u8, 114u8, 107u8, 101u8, 116u8];
    assert(r@ =~= market_tag());
    r
}

fn tag_oracle() -> (r: Vec<u8>)
    ensures
        r@ == oracle_tag(),
{
    let r: Vec<u8> = vec![83u8, 116u8, 117u8, 98u8, 79u8, 114u8, 97u8, 99u8, 108u8, 101u8];
    assert(r@ =~= oracle_tag());
    r
}

fn tag_open_orders() -> (r: Vec<u8>)
    ensures
        r@ == open_orders_tag(),
{
    let r: Vec<u8> = vec![79u8, 112u8, 101u8, 110u8, 79u8, 114u8, 100u8, 101u8, 114u8, 115u8];
    assert(r@ =~= open_orders_tag());
    r
}

/// The address derived from three seeds under `program`, without its bump
/// seed.
fn derive3(a: Vec<u8>, b: Vec<u8>, c: Vec<u8>, program: &AccountRef) -> (r: Option<AccountRef>)
    ensures
        match r {
            Some(x) => program_address(seq![a@, b@, c@], program.key@) matches Some(found)
                && found.0 == x.key@,
            None => program_address(seq![a@, b@, c@], program.key@).is_none(),
        },
{
    let ghost want = seq![a@, b@, c@];
    let mut seeds: Vec<Vec<u8>> = Vec::new();
    seeds.push(a);
    seeds.push(b);
    seeds.push(c);
    assert(seeds.deep_view() =~~= want);
    match find_program_address(&seeds, program) {
        Some((x, _)) => Some(x),
        None => None,
    }
}

/// The address derived from four seeds under `program`, without its bump
/// seed.
fn derive4(a: Vec<u8>, b: Vec<u8>, c: Vec<u8>, d: Vec<u8>, program: &AccountRef) -> (r: Option<
    AccountRef,
>)
    ensures
        match r {
            Some(x) => program_address(seq![a@, b@, c@, d@], program.key@) matches Some(found)
                && found.0 == x.key@,
            None => program_address(seq![a@, b@, c@, d@], program.key@).is_none(),
        },
{
    let ghost want = seq![a@, b@, c@, d@];
    let mut seeds: Vec<Vec<u8>> = Vec::new();
    seeds.push(a);
    seeds.push(b);
    seeds.push(c);
    seeds.push(d);
    assert(seeds.deep_view() =~~= want);
    match find_program_address(&seeds, program) {
        Some((x, _)) => Some(x),
        None => None,
    }
}

/// The seeds of the market that `payer` creates under `market_index`.
pub open spec fn market_seeds(payer: AccountRef, market_index: u32) -> Seq<Seq<u8>> {
    seq![market_tag(), payer.key@, le_bytes_spec(market_index)]
}

/// The seeds of the stub oracle that `owner` keeps for `mint`.
pub open spec fn oracle_seeds(owner: AccountRef, mint: AccountRef) -> Seq<Seq<u8>> {
    seq![oracle_tag(), owner.key@, mint.key@]
}

/// The seeds of the open-orders account number `account_num` that `owner`
/// has in `market`.
pub open spec fn open_orders_seeds(owner: AccountRef, market: AccountRef, account_num: u32) -> Seq<
    Seq<u8>,
> {
    seq![open_orders_tag(), owner.key@, market.key@, le_bytes_spec(account_num)]
}

/// True where `r` is the address that `program` owns under `seeds`; for
/// `None`, where there is none.
pub open spec fn is_derived(r: Option<AccountRef>, seeds: Seq<Seq<u8>>, program: Seq<u8>) -> bool {
    match r {
        Some(x) => program_address(seeds, program) matches Some(found) && found.0 == x.key@,
        None => program_address(seeds, program).is_none(),
    }
}

/// The address of the market that `payer` creates under `market_index`.
pub fn market_address(payer: &AccountRef, market_index: u32) -> (r: Option<AccountRef>)
    ensures
        is_derived(r, market_seeds(*payer, market_index), program_id_bytes()),
{
    derive3(tag_market(), key_bytes(payer), le_bytes(market_index), &program_id())
}

/// The address of the stub oracle that `owner` keeps for `mint`.
pub fn oracle_address(owner: &AccountRef, mint: &AccountRef) -> (r: Option<AccountRef>)
    ensures
        is_derived(r, oracle_seeds(*owner, *mint), program_id_bytes()),
{
    derive3(tag_oracle(), key_bytes(owner), key_bytes(mint), &program_id())
}

/// The address of the open-orders account number `account_num` that
/// `owner` has in `market`.
pub fn open_orders_address(owner: &AccountRef, market: &AccountRef, account_num: u32) -> (r:
    Option<AccountRef>)
    ensures
        is_derived(r, open_orders_seeds(*owner, *market, account_num), program_id_bytes()),
{
    derive4(
        tag_open_orders(),
        key_bytes(owner),
        key_bytes(market),
        le_bytes(account_num),
        &program_id(),
    )
}

/// The address of the token account that the associated-token-account
/// program keeps for `wallet` and `mint`: the address that program owns
/// under the wallet, the token program and the mint.
pub fn associated_token_address(wallet: &AccountRef, mint: &AccountRef) -> (r: Option<AccountRef>)
    ensures
        is_derived(
            r,
            associated_token_seeds(*wallet, *mint),
            associated_token_program_bytes(),
        ),
{
    let token_program = token_program_id();
    let program = associated_token_program_id();
    derive3(key_bytes(wallet), key_bytes(&token_program), key_bytes(mint), &program)
}

} // verus!
