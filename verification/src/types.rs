use vstd::prelude::*;

verus! {

/// Number of distinct trader identities a context hands out.
pub const NUM_USERS: u8 = 8;

/// Token balance, in native units, that a new trader starts with in each mint.
pub const INITIAL_BALANCE: u64 = 1_000_000_000;

/// Which side of the book an order rests on.
#[derive(Clone, Copy, Debug, PartialEq, Eq, Structural)]
pub enum Side {
    Bid,
    Ask,
}

impl Side {
    pub open spec fn inverted(self) -> Side {
        match self {
            Side::Bid => Side::Ask,
            Side::Ask => Side::Bid,
        }
    }

    /// The side an order of this side trades against.
    pub fn invert_side(self) -> (r: Side)
        ensures
            r == self.inverted(),
    {
        match self {
            Side::Bid => Side::Ask,
            Side::Ask => Side::Bid,
        }
    }
}

/// How long an order may live.
#[derive(Clone, Copy, Debug, PartialEq, Eq, Structural)]
pub enum OrderType {
    /// Match what crosses, rest the remainder on the book.
    Limit,
    /// Match what crosses, drop the remainder.
    ImmediateOrCancel,
    /// Match the whole quantity at once or fail.
    FillOrKill,
}

impl OrderType {
    /// True for the order types that never rest on the book.
    pub open spec fn is_taker_only(self) -> bool {
        self != OrderType::Limit
    }
}

/// What happens when an incoming order meets a resting order of its own account.
#[derive(Clone, Copy, Debug, PartialEq, Eq, Structural)]
pub enum SelfTradeBehavior {
    /// Both orders shrink by the quantity that would have traded; nothing is exchanged.
    DecrementBoth,
    /// The resting order is taken off the book and the incoming order goes on.
    CancelResting,
    /// The incoming order stops; what is left of it is dropped.
    CancelIncoming,
    /// The whole placement fails.
    Reject,
}

/// Refusal of a book side that has no room for an order.
#[derive(Clone, Copy, Debug, PartialEq, Eq, Structural)]
pub struct BookFull;

/// Refusal of an event queue that cannot hold a single event.
#[derive(Clone, Copy, Debug, PartialEq, Eq, Structural)]
pub struct QueueFull;

/// Why a placement, a consumption or a settlement was refused.
#[derive(Clone, Copy, Debug, PartialEq, Eq, Structural)]
pub enum MatchError {
    BookFull,
    WouldNotFullyFill,
    InvalidPrice,
    InvalidQuantity,
    SelfTradeReject,
    ArithmeticOverflow,
    QueueFull,
    OracleUnavailable,
    InsufficientFunds,
}

impl MatchError {
    pub open spec fn code_spec(self) -> u32 {
        match self {
            MatchError::BookFull => 6000,
            MatchError::WouldNotFullyFill => 6001,
            MatchError::InvalidPrice => 6002,
            MatchError::InvalidQuantity => 6003,
            MatchError::SelfTradeReject => 6004,
            MatchError::ArithmeticOverflow => 6005,
            MatchError::QueueFull => 6006,
            MatchError::OracleUnavailable => 6007,
            MatchError::InsufficientFunds => 6008,
        }
    }

    /// The code under which the error is reported.
    pub fn code(self) -> (r: u32)
        ensures
            r == self.code_spec(),
    {
        match self {
            MatchError::BookFull => 6000,
            MatchError::WouldNotFullyFill => 6001,
            MatchError::InvalidPrice => 6002,
            MatchError::InvalidQuantity => 6003,
            MatchError::SelfTradeReject => 6004,
            MatchError::ArithmeticOverflow => 6005,
            MatchError::QueueFull => 6006,
            MatchError::OracleUnavailable => 6007,
            MatchError::InsufficientFunds => 6008,
        }
    }

    /// Two different errors never share a code.
    pub proof fn lemma_codes_distinct(a: MatchError, b: MatchError)
        ensures
            a.code_spec() == b.code_spec() <==> a == b,
    {
    }
}

/// Why an instruction of the exchange was refused.
#[derive(Clone, Copy, Debug, PartialEq, Eq, Structural)]
pub enum ProgramError {
    /// The matching engine refused.
    Match(MatchError),
    /// An account that the instruction names does not exist.
    AccountNotFound,
    /// The caller is not the admin the action is reserved to.
    Unauthorized,
    /// The market parameters are not acceptable.
    InvalidMarketParams,
    /// The market was created before.
    MarketAlreadyCreated,
    /// No market has been created yet.
    MarketNotCreated,
    /// No address could be derived for an account that had to be created.
    AddressNotDerived,
}

impl ProgramError {
    pub open spec fn code_spec(self) -> u32 {
        match self {
            ProgramError::Match(e) => e.code_spec(),
            ProgramError::AccountNotFound => 1,
            ProgramError::Unauthorized => 2,
            ProgramError::InvalidMarketParams => 3,
            ProgramError::MarketAlreadyCreated => 4,
            ProgramError::MarketNotCreated => 5,
            ProgramError::AddressNotDerived => 6,
        }
    }

    /// The code under which the error is reported.
    pub fn code(self) -> (r: u32)
        ensures
            r == self.code_spec(),
    {
        match self {
            ProgramError::Match(e) => e.code(),
            ProgramError::AccountNotFound => 1,
            ProgramError::Unauthorized => 2,
            ProgramError::InvalidMarketParams => 3,
            ProgramError::MarketAlreadyCreated => 4,
            ProgramError::MarketNotCreated => 5,
            ProgramError::AddressNotDerived => 6,
        }
    }

    /// Two different errors never share a code.
    pub proof fn lemma_codes_distinct(a: ProgramError, b: ProgramError)
        ensures
            a.code_spec() == b.code_spec() <==> a == b,
    {
    }
}

} // verus!
