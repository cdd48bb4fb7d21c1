use vstd::prelude::*;

verus! {

/// A key / secret pair issued by Wex.
#[derive(Clone, Debug)]
pub struct Account {
    pub key: String,
    pub secret: String,
}

/// The envelope around every trade-API reply: `success` is 1 when the call
/// succeeded, and then `result` holds the payload; otherwise `error` holds
/// the exchange's message.
#[derive(Clone, Debug)]
pub struct WexResult<T> {
    pub success: u8,
    pub result: Option<T>,
    pub error: Option<String>,
}

/// What an envelope stands for: the payload when `success` is 1, the error
/// message otherwise.  `None` when the envelope lacks the part it needs.
pub open spec fn spec_envelope<T>(r: WexResult<T>) -> Option<Result<T, Seq<char>>> {
    if r.success == 1 {
        match r.result {
            Some(v) => Some(Ok(v)),
            None => None,
        }
    } else {
        match r.error {
            Some(e) => Some(Err(e@)),
            None => None,
        }
    }
}

impl<T> WexResult<T> {
    /// Whether the envelope carries the part that its `success` flag calls for.
    pub open spec fn is_complete(&self) -> bool {
        spec_envelope(*self) is Some
    }

    /// The payload of a successful reply, or the exchange's error message.
    pub fn into_result(self) -> (res: Result<T, String>)
        requires
            self.is_complete(),
        ensures
            self.success == 1 ==> res == Ok::<T, String>(self.result->0),
            self.success != 1 ==> (res matches Err(e) && e@ == self.error->0@),
            spec_envelope(self) == Some(match res {
                Ok(v) => Ok::<T, Seq<char>>(v),
                Err(e) => Err(e@),
            }),
    {
        if self.success == 1 {
            Ok(self.result.unwrap())
        } else {
            Err(self.error.unwrap())
        }
    }
}

/// The privileges of an API key.
#[derive(Clone, Debug)]
pub struct FundRights {
    pub info: u8,
    pub trade: u8,
    pub withdraw: u8,
}

/// Side of an order.
#[derive(Clone, Copy, Debug, PartialEq, Eq, Structural)]
pub enum OrderType {
    Sell,
    Buy,
}

impl OrderType {
    /// The wire name of the side: "sell" or "buy".
    pub open spec fn spec_name(self) -> Seq<char> {
        match self {
            OrderType::Sell => "sell"@,
            OrderType::Buy => "buy"@,
        }
    }

    /// The wire name of the side.
    pub fn as_str(&self) -> (s: &'static str)
        ensures
            s@ == self.spec_name(),
            *self == OrderType::Sell ==> s@ == "sell"@,
            *self == OrderType::Buy ==> s@ == "buy"@,
    {
        match self {
            OrderType::Sell => "sell",
            OrderType::Buy => "buy",
        }
    }
}

/// State of an order.
#[derive(Clone, Copy, Debug, PartialEq, Eq, Structural)]
pub enum OrderStatus {
    Active,
    ExecutedOrder,
    Canceled,
    PartiallyExecuted,
}

impl OrderStatus {
    /// The number by which the exchange denotes the state.
    pub open spec fn spec_code(self) -> u8 {
        match self {
            OrderStatus::Active => 0u8,
            OrderStatus::ExecutedOrder => 1u8,
            OrderStatus::Canceled => 2u8,
            OrderStatus::PartiallyExecuted => 3u8,
        }
    }

    /// The number by which the exchange denotes the state.
    pub fn code(&self) -> (c: u8)
        ensures
            c == self.spec_code(),
            *self == OrderStatus::Active ==> c == 0,
            *self == OrderStatus::ExecutedOrder ==> c == 1,
            *self == OrderStatus::Canceled ==> c == 2,
            *self == OrderStatus::PartiallyExecuted ==> c == 3,
    {
        match self {
            OrderStatus::Active => 0,
            OrderStatus::ExecutedOrder => 1,
            OrderStatus::Canceled => 2,
            OrderStatus::PartiallyExecuted => 3,
        }
    }

    /// The state a number denotes, if any.
    pub fn from_code(c: u8) -> (r: Option<OrderStatus>)
        ensures
            match r {
                Some(x) => x.spec_code() == c,
                None => c != 0 && c != 1 && c != 2 && c != 3,
            },
            c == 0 ==> r == Some(OrderStatus::Active),
            c == 1 ==> r == Some(OrderStatus::ExecutedOrder),
            c == 2 ==> r == Some(OrderStatus::Canceled),
            c == 3 ==> r == Some(OrderStatus::PartiallyExecuted),
    {
        match c {
            0 => Some(OrderStatus::Active),
            1 => Some(OrderStatus::ExecutedOrder),
            2 => Some(OrderStatus::Canceled),
            3 => Some(OrderStatus::PartiallyExecuted),
            _ => None,
        }
    }
}

/// Sort order of a history query.
#[derive(Clone, Copy, Debug, PartialEq, Eq, Structural)]
pub enum TradeHistorySorting {
    Asc,
    Desc,
}

impl TradeHistorySorting {
    /// The wire name of the order: "asc" or "desc".
    pub open spec fn spec_name(self) -> Seq<char> {
        match self {
            TradeHistorySorting::Asc => "asc"@,
            TradeHistorySorting::Desc => "desc"@,
        }
    }

    /// The wire name of the order.
    pub fn as_str(&self) -> (s: &'static str)
        ensures
            s@ == self.spec_name(),
            *self == TradeHistorySorting::Asc ==> s@ == "asc"@,
            *self == TradeHistorySorting::Desc ==> s@ == "desc"@,
    {
        match self {
            TradeHistorySorting::Asc => "asc",
            TradeHistorySorting::Desc => "desc",
        }
    }
}

/// Optional filters of the trade and transaction history methods.
pub struct HistoryQuery {
    /// trade ID, from which the display starts (default 0)
    pub from: Option<u64>,
    /// the number of trades for display (default 1000)
    pub count: Option<u64>,
    /// trade ID, from which the display starts (default 0)
    pub from_id: Option<u64>,
    /// trade ID on which the display ends (default: no end)
    pub end_id: Option<u64>,
    /// Sorting. Defaults: DESC.
    pub order: Option<TradeHistorySorting>,
    /// the time to start the display, UNIX time (default 0)
    pub since: Option<i64>,
    /// the time to end the display, UNIX time (default: no end)
    pub end: Option<i64>,
    /// pair to be displayed, such as `btc_usd` (default: all pairs)
    pub pair: Option<String>,
}

/// Kind of a transaction.
#[derive(Clone, Copy, Debug, PartialEq, Eq, Structural)]
pub enum TransactionType {
    Deposit,
    Withdrawl,
    Credit,
    Debit,
}

impl TransactionType {
    /// The number by which the exchange denotes the kind.
    pub open spec fn spec_code(self) -> u8 {
        match self {
            TransactionType::Deposit => 1u8,
            TransactionType::Withdrawl => 2u8,
            TransactionType::Credit => 4u8,
            TransactionType::Debit => 5u8,
        }
    }

    /// The number by which the exchange denotes the kind.
    pub fn code(&self) -> (c: u8)
        ensures
            c == self.spec_code(),
            *self == TransactionType::Deposit ==> c == 1,
            *self == TransactionType::Withdrawl ==> c == 2,
            *self == TransactionType::Credit ==> c == 4,
            *self == TransactionType::Debit ==> c == 5,
    {
        match self {
            TransactionType::Deposit => 1,
            TransactionType::Withdrawl => 2,
            TransactionType::Credit => 4,
            TransactionType::Debit => 5,
        }
    }

    /// The kind a number denotes, if any.
    pub fn from_code(c: u8) -> (r: Option<TransactionType>)
        ensures
            match r {
                Some(x) => x.spec_code() == c,
                None => c != 1 && c != 2 && c != 4 && c != 5,
            },
            c == 1 ==> r == Some(TransactionType::Deposit),
            c == 2 ==> r == Some(TransactionType::Withdrawl),
            c == 4 ==> r == Some(TransactionType::Credit),
            c == 5 ==> r == Some(TransactionType::Debit),
    {
        match c {
            1 => Some(TransactionType::Deposit),
            2 => Some(TransactionType::Withdrawl),
            4 => Some(TransactionType::Credit),
            5 => Some(TransactionType::Debit),
            _ => None,
        }
    }
}

/// State of a transaction.
#[derive(Clone, Copy, Debug, PartialEq, Eq, Structural)]
pub enum TransactionStatus {
    Canceled,
    Waiting,
    Successful,
    NotConfirmed,
}

impl TransactionStatus {
    /// The number by which the exchange denotes the state.
    pub open spec fn spec_code(self) -> u8 {
        match self {
            TransactionStatus::Canceled => 0u8,
            TransactionStatus::Waiting => 1u8,
            TransactionStatus::Successful => 2u8,
            TransactionStatus::NotConfirmed => 3u8,
        }
    }

    /// The number by which the exchange denotes the state.
    pub fn code(&self) -> (c: u8)
        ensures
            c == self.spec_code(),
            *self == TransactionStatus::Canceled ==> c == 0,
            *self == TransactionStatus::Waiting ==> c == 1,
            *self == TransactionStatus::Successful ==> c == 2,
            *self == TransactionStatus::NotConfirmed ==> c == 3,
    {
        match self {
            TransactionStatus::Canceled => 0,
            TransactionStatus::Waiting => 1,
            TransactionStatus::Successful => 2,
            TransactionStatus::NotConfirmed => 3,
        }
    }

    /// The state a number denotes, if any.
    pub fn from_code(c: u8) -> (r: Option<TransactionStatus>)
        ensures
            match r {
                Some(x) => x.spec_code() == c,
                None => c != 0 && c != 1 && c != 2 && c != 3,
            },
            c == 0 ==> r == Some(TransactionStatus::Canceled),
            c == 1 ==> r == Some(TransactionStatus::Waiting),
            c == 2 ==> r == Some(TransactionStatus::Successful),
            c == 3 ==> r == Some(TransactionStatus::NotConfirmed),
    {
        match c {
            0 => Some(TransactionStatus::Canceled),
            1 => Some(TransactionStatus::Waiting),
            2 => Some(TransactionStatus::Successful),
            3 => Some(TransactionStatus::NotConfirmed),
            _ => None,
        }
    }
}

/// Different states and kinds have different numbers, so `from_code` of a
/// `code` gives the value back.
pub proof fn lemma_codes_distinct(s: OrderStatus, t: TransactionType, u: TransactionStatus)
    ensures
        forall|x: OrderStatus| #[trigger] x.spec_code() == s.spec_code() ==> x == s,
        forall|x: TransactionType| #[trigger] x.spec_code() == t.spec_code() ==> x == t,
        forall|x: TransactionStatus| #[trigger] x.spec_code() == u.spec_code() ==> x == u,
{
}

} // verus!
