//! Values shared by every contract of the protocol: coins, the response
//! that a handler hands back (bank sends and attributes), the storage-level
//! failure that a handler passes on, and the arithmetic of amounts and
//! block times.

use vstd::prelude::*;

verus! {

/// A quantity of one native denomination.
#[derive(Clone, Debug)]
pub struct Coin {
    pub denom: String,
    pub amount: u128,
}

pub struct CoinView {
    pub denom: Seq<char>,
    pub amount: u128,
}

impl View for Coin {
    type V = CoinView;

    open spec fn view(&self) -> CoinView {
        CoinView { denom: self.denom@, amount: self.amount }
    }
}

/// The sender and the coins attached to a message.
#[derive(Clone, Debug)]
pub struct MessageInfo {
    pub sender: String,
    pub funds: Vec<Coin>,
}

/// The value of a response attribute. Numbers are rendered in decimal
/// and flags as `true` / `false` when the response leaves the contract.
#[derive(Clone, Debug)]
pub enum AttrValue {
    Text(String),
    Number(u128),
    Flag(bool),
}

pub enum AttrValueView {
    Text(Seq<char>),
    Number(u128),
    Flag(bool),
}

impl View for AttrValue {
    type V = AttrValueView;

    open spec fn view(&self) -> AttrValueView {
        match self {
            AttrValue::Text(s) => AttrValueView::Text(s@),
            AttrValue::Number(n) => AttrValueView::Number(*n),
            AttrValue::Flag(b) => AttrValueView::Flag(*b),
        }
    }
}

#[derive(Clone, Debug)]
pub struct Attribute {
    pub key: String,
    pub value: AttrValue,
}

pub struct AttributeView {
    pub key: Seq<char>,
    pub value: AttrValueView,
}

impl View for Attribute {
    type V = AttributeView;

    open spec fn view(&self) -> AttributeView {
        AttributeView { key: self.key@, value: self.value@ }
    }
}

/// A bank transfer that the contract asks the chain to make.
#[derive(Clone, Debug)]
pub struct BankSend {
    pub to_address: String,
    pub amount: Vec<Coin>,
}

pub struct BankSendView {
    pub to_address: Seq<char>,
    pub amount: Seq<CoinView>,
}

impl View for BankSend {
    type V = BankSendView;

    open spec fn view(&self) -> BankSendView {
        BankSendView {
            to_address: self.to_address@,
            amount: self.amount@.map_values(|c: Coin| c@),
        }
    }
}

/// What a handler returns on success: bank sends, then attributes.
#[derive(Clone, Debug)]
pub struct Response {
    pub messages: Vec<BankSend>,
    pub attributes: Vec<Attribute>,
}

pub struct ResponseView {
    pub messages: Seq<BankSendView>,
    pub attributes: Seq<AttributeView>,
}

impl View for Response {
    type V = ResponseView;

    open spec fn view(&self) -> ResponseView {
        ResponseView {
            messages: self.messages@.map_values(|m: BankSend| m@),
            attributes: self.attributes@.map_values(|a: Attribute| a@),
        }
    }
}

/// A failure of the storage layer or of address validation, passed on
/// unchanged by the handler that met it.
#[derive(Clone, Debug)]
pub enum StdFailure {
    /// No value is stored under the key; `kind` names what was looked for.
    NotFound { kind: String },
    /// Any other failure, with its message.
    Generic { msg: String },
}

impl StdFailure {
    /// A copy of this failure.
    pub fn duplicate(&self) -> (r: Self)
        ensures
            r == *self,
    {
        match self {
            StdFailure::NotFound { kind } => StdFailure::NotFound { kind: kind.clone() },
            StdFailure::Generic { msg } => StdFailure::Generic { msg: msg.clone() },
        }
    }
}

pub open spec fn text_attr(key: Seq<char>, value: Seq<char>) -> AttributeView {
    AttributeView { key, value: AttrValueView::Text(value) }
}

pub open spec fn num_attr(key: Seq<char>, value: int) -> AttributeView {
    AttributeView { key, value: AttrValueView::Number(value as u128) }
}

pub open spec fn flag_attr(key: Seq<char>, value: bool) -> AttributeView {
    AttributeView { key, value: AttrValueView::Flag(value) }
}

pub fn text(key: &str, value: &str) -> (a: Attribute)
    ensures
        a@ == text_attr(key@, value@),
{
    Attribute { key: key.to_owned(), value: AttrValue::Text(value.to_owned()) }
}

pub fn text_owned(key: &str, value: String) -> (a: Attribute)
    ensures
        a@ == text_attr(key@, value@),
{
    Attribute { key: key.to_owned(), value: AttrValue::Text(value) }
}

pub fn number(key: &str, value: u128) -> (a: Attribute)
    ensures
        a@ == num_attr(key@, value as int),
{
    Attribute { key: key.to_owned(), value: AttrValue::Number(value) }
}

pub fn flag(key: &str, value: bool) -> (a: Attribute)
    ensures
        a@ == flag_attr(key@, value),
{
    Attribute { key: key.to_owned(), value: AttrValue::Flag(value) }
}

/// Two strings with the same characters.
pub fn same_text(a: &String, b: &str) -> (r: bool)
    ensures
        r == (a@ == b@),
{
    let owned: String = b.to_owned();
    *a == owned
}

/// The amount of the first coin of `denom` among `funds`, 0 where there is none.
pub open spec fn amount_of(funds: Seq<Coin>, denom: Seq<char>) -> u128
    decreases funds.len(),
{
    if funds.len() == 0 {
        0
    } else if funds[0].denom@ == denom {
        funds[0].amount
    } else {
        amount_of(funds.drop_first(), denom)
    }
}

pub fn find_amount(funds: &Vec<Coin>, denom: &String) -> (r: u128)
    ensures
        r == amount_of(funds@, denom@),
{
    let mut i: usize = 0;
    assert(funds@.skip(0) =~= funds@);
    while i < funds.len()
        invariant
            i <= funds.len(),
            amount_of(funds@, denom@) == amount_of(funds@.skip(i as int), denom@),
        decreases funds.len() - i,
    {
        assert(funds@.skip(i as int).drop_first() =~= funds@.skip(i + 1));
        if funds[i].denom == *denom {
            return funds[i].amount;
        }
        i = i + 1;
    }
    0
}

/// The magnitude of a signed delta.
pub open spec fn magnitude(delta: i64) -> int {
    if delta >= 0 {
        delta as int
    } else {
        -(delta as int)
    }
}

pub fn unsigned_abs(delta: i64) -> (r: u64)
    ensures
        r == magnitude(delta),
        delta >= 0 ==> r == delta,
        delta < 0 ==> r == -delta,
{
    if delta >= 0 {
        delta as u64
    } else {
        (-(delta + 1)) as u64 + 1
    }
}

/// A score moved by a signed delta, saturating at 0 and at `u64::MAX`.
pub open spec fn moved_score(score: u64, delta: i64) -> u64 {
    if delta >= 0 {
        if score + magnitude(delta) > u64::MAX {
            u64::MAX
        } else {
            (score + magnitude(delta)) as u64
        }
    } else if score < magnitude(delta) {
        0
    } else {
        (score - magnitude(delta)) as u64
    }
}

pub fn move_score(score: u64, delta: i64) -> (r: u64)
    ensures
        r == moved_score(score, delta),
{
    if delta >= 0 {
        score.saturating_add(unsigned_abs(delta))
    } else {
        score.saturating_sub(unsigned_abs(delta))
    }
}

/// A score moves by exactly its signed delta, stopping at 0 below and at
/// `u64::MAX` above: a negative delta takes its size off the score, a
/// positive one adds it.
pub proof fn lemma_score_moves_by_delta(score: u64, delta: i64)
    ensures
        delta < 0 ==> magnitude(delta) == -delta,
        delta >= 0 ==> magnitude(delta) == delta,
        score + delta < 0 ==> moved_score(score, delta) == 0,
        0 <= score + delta <= u64::MAX ==> moved_score(score, delta) == score + delta,
        score + delta > u64::MAX ==> moved_score(score, delta) == u64::MAX,
{
}

/// `value * numerator / denominator`, rounded down.
pub open spec fn ratio(value: int, numerator: int, denominator: int) -> int {
    value * numerator / denominator
}

/// `value * numerator / denominator`, rounded down, computed through a
/// 256-bit product so that the product itself never overflows.
///
/// Calls `cosmwasm_std::Uint128::multiply_ratio`, which is believed to
/// return exactly the rounded-down ratio; it panics on a zero denominator
/// and on a ratio above `u128::MAX`, which `requires` leaves out.
#[verifier::external_body]
pub(crate) fn multiply_ratio(value: u128, numerator: u128, denominator: u128) -> (r: u128)
    requires
        denominator > 0,
        ratio(value as int, numerator as int, denominator as int) <= u128::MAX,
    ensures
        r == ratio(value as int, numerator as int, denominator as int),
{
    cosmwasm_std::Uint128::new(value).multiply_ratio(numerator, denominator).u128()
}

/// `value * numerator / denominator`, rounded down, where it fits in 128
/// bits, and `None` where it does not; the product itself is computed in
/// 256 bits.
///
/// Calls `cosmwasm_std::Uint128::checked_multiply_ratio`, which is believed
/// to return the rounded-down ratio exactly when it fits in 128 bits and
/// its overflow error otherwise; its other error, for a zero denominator,
/// is left out by `requires`.
#[verifier::external_body]
pub(crate) fn checked_multiply_ratio(value: u128, numerator: u128, denominator: u128) -> (r: Option<u128>)
    requires
        denominator > 0,
    ensures
        match r {
            Some(v) => v == ratio(value as int, numerator as int, denominator as int),
            None => ratio(value as int, numerator as int, denominator as int) > u128::MAX,
        },
{
    match cosmwasm_std::Uint128::new(value).checked_multiply_ratio(numerator, denominator) {
        Ok(v) => Some(v.u128()),
        Err(_) => None,
    }
}

/// The block time `seconds` earlier, both in nanoseconds since the epoch.
///
/// Calls `cosmwasm_std::Timestamp::minus_seconds` on the timestamp of
/// `nanos` and reads back its nanoseconds; it is believed to subtract
/// `seconds * 10^9` exactly, and panics where that would go below the
/// epoch, which `requires` leaves out.
#[verifier::external_body]
pub(crate) fn minus_seconds(nanos: u64, seconds: u64) -> (r: u64)
    requires
        seconds * 1_000_000_000 <= nanos,
    ensures
        r == nanos - seconds * 1_000_000_000,
{
    cosmwasm_std::Timestamp::from_nanos(nanos).minus_seconds(seconds).nanos()
}

/// Of the first `n` stored `(id, value)` entries, the values (`None` where
/// one could not be read) whose id comes after `start_after`, in order.
pub open spec fn entries_after<T>(entries: Seq<(u64, Option<T>)>, n: int, start_after: Option<u64>) -> Seq<
    Option<T>,
>
    decreases n,
{
    if n <= 0 {
        Seq::empty()
    } else {
        let before = entries_after(entries, n - 1, start_after);
        if start_after matches Some(s) && entries[n - 1].0 <= s {
            before
        } else {
            before.push(entries[n - 1].1)
        }
    }
}

/// The values of the entries whose id comes after `start_after`, in order.
pub fn keep_after<T>(entries: Vec<(u64, Option<T>)>, start_after: Option<u64>) -> (r: Vec<Option<T>>)
    ensures
        r@ == entries_after(entries@, entries@.len() as int, start_after),
{
    let ghost all = entries@;
    let mut rest = entries;
    let mut kept: Vec<Option<T>> = Vec::new();
    assert(all.skip(0) =~= all);
    while rest.len() > 0
        invariant
            rest@.len() <= all.len(),
            rest@ == all.skip(all.len() - rest@.len()),
            kept@ == entries_after(all, all.len() - rest@.len(), start_after),
        decreases rest.len(),
    {
        let ghost k = all.len() - rest@.len();
        assert(rest@[0] == all[k]);
        let (id, value) = rest.remove(0);
        assert(rest@ =~= all.skip(k + 1));
        let counts = match start_after {
            Some(s) => id > s,
            None => true,
        };
        if counts {
            kept.push(value);
        }
    }
    kept
}

/// Of the first `n` stored `(id, value)` entries, the values (`None` where
/// one could not be read) whose id is at least `start`, in order.
pub open spec fn entries_from<T>(entries: Seq<(u64, Option<T>)>, n: int, start: Option<u64>) -> Seq<Option<T>>
    decreases n,
{
    if n <= 0 {
        Seq::empty()
    } else {
        let before = entries_from(entries, n - 1, start);
        if start matches Some(s) && entries[n - 1].0 < s {
            before
        } else {
            before.push(entries[n - 1].1)
        }
    }
}

/// The values of the entries whose id is at least `start`, in order.
pub fn keep_from<T>(entries: Vec<(u64, Option<T>)>, start: Option<u64>) -> (r: Vec<Option<T>>)
    ensures
        r@ == entries_from(entries@, entries@.len() as int, start),
{
    let ghost all = entries@;
    let mut rest = entries;
    let mut kept: Vec<Option<T>> = Vec::new();
    assert(all.skip(0) =~= all);
    while rest.len() > 0
        invariant
            rest@.len() <= all.len(),
            rest@ == all.skip(all.len() - rest@.len()),
            kept@ == entries_from(all, all.len() - rest@.len(), start),
        decreases rest.len(),
    {
        let ghost k = all.len() - rest@.len();
        assert(rest@[0] == all[k]);
        let (id, value) = rest.remove(0);
        assert(rest@ =~= all.skip(k + 1));
        let counts = match start {
            Some(s) => id >= s,
            None => true,
        };
        if counts {
            kept.push(value);
        }
    }
    kept
}

} // verus!
