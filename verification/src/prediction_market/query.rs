//! Queries of the prediction market.

use crate::common::{entries_after, keep_after, StdFailure};
use crate::prediction_market::msg::{
    MarketResponse, MarketsResponse, OrderResponse, OrdersResponse, PositionResponse, PositionsResponse,
};
use crate::prediction_market::state::{Market, MarketStatus, Order, OrderSide, Position};
use vstd::prelude::*;

verus! {

/// The name under which a market status is shown.
pub open spec fn market_status_label(s: MarketStatus) -> Seq<char> {
    match s {
        MarketStatus::Active => "active"@,
        MarketStatus::Resolved => "resolved"@,
        MarketStatus::Cancelled => "cancelled"@,
    }
}

pub fn market_status_name(s: MarketStatus) -> (r: String)
    ensures
        r@ == market_status_label(s),
{
    match s {
        MarketStatus::Active => "active".to_owned(),
        MarketStatus::Resolved => "resolved".to_owned(),
        MarketStatus::Cancelled => "cancelled".to_owned(),
    }
}

/// The name under which an order side is shown.
pub open spec fn side_label(s: OrderSide) -> Seq<char> {
    match s {
        OrderSide::Buy => "buy"@,
        OrderSide::Sell => "sell"@,
    }
}

pub fn side_name(s: OrderSide) -> (r: String)
    ensures
        r@ == side_label(s),
{
    match s {
        OrderSide::Buy => "buy".to_owned(),
        OrderSide::Sell => "sell".to_owned(),
    }
}

pub open spec fn text_option(o: Option<String>) -> Option<Seq<char>> {
    match o {
        Some(s) => Some(s@),
        None => None,
    }
}

pub open spec fn texts(v: Seq<String>) -> Seq<Seq<char>> {
    v.map_values(|s: String| s@)
}

fn copy_option(o: &Option<String>) -> (r: Option<String>)
    ensures
        text_option(r) == text_option(*o),
{
    match o {
        Some(s) => Some(s.clone()),
        None => None,
    }
}

fn copy_texts(v: &Vec<String>) -> (r: Vec<String>)
    ensures
        texts(r@) == texts(v@),
{
    let mut r: Vec<String> = Vec::new();
    let mut i: usize = 0;
    while i < v.len()
        invariant
            i <= v.len(),
            r@.len() == i,
            forall|j: int| 0 <= j < i ==> (#[trigger] r@[j])@ == v@[j]@,
        decreases v.len() - i,
    {
        r.push(v[i].clone());
        i = i + 1;
    }
    assert(texts(r@) =~= texts(v@));
    r
}

/// `out` shows the market `m`, its status by name.
pub open spec fn shows_market(out: MarketResponse, m: Market) -> bool {
    &&& out.id == m.id
    &&& out.creator@ == m.creator@
    &&& out.question@ == m.question@
    &&& out.description@ == m.description@
    &&& texts(out.outcomes@) == texts(m.outcomes@)
    &&& out.end_time == m.end_time
    &&& text_option(out.resolution_source) == text_option(m.resolution_source)
    &&& out.total_volume == m.total_volume
    &&& out.liquidity == m.liquidity
    &&& out.status@ == market_status_label(m.status)
    &&& text_option(out.winning_outcome) == text_option(m.winning_outcome)
    &&& out.resolved_at == m.resolved_at
}

pub fn market_response(m: &Market) -> (out: MarketResponse)
    ensures
        shows_market(out, *m),
{
    MarketResponse {
        id: m.id,
        creator: m.creator.clone(),
        question: m.question.clone(),
        description: m.description.clone(),
        outcomes: copy_texts(&m.outcomes),
        end_time: m.end_time,
        resolution_source: copy_option(&m.resolution_source),
        total_volume: m.total_volume,
        liquidity: m.liquidity,
        status: market_status_name(m.status),
        winning_outcome: copy_option(&m.winning_outcome),
        resolved_at: m.resolved_at,
    }
}

/// The market stored under an id.
pub fn query_market(market: Result<Market, StdFailure>) -> (res: Result<MarketResponse, StdFailure>)
    ensures
        match market {
            Err(e) => res == Err::<MarketResponse, StdFailure>(e),
            Ok(m) => res matches Ok(out) && shows_market(out, m),
        },
{
    match market {
        Err(e) => Err(e),
        Ok(m) => Ok(market_response(&m)),
    }
}

/// The values among the first `n` entries that could be read, in order.
pub open spec fn readable<T>(entries: Seq<Option<T>>, n: int) -> Seq<T>
    decreases n,
{
    if n <= 0 {
        Seq::empty()
    } else {
        let before = readable(entries, n - 1);
        match entries[n - 1] {
            Some(x) => before.push(x),
            None => before,
        }
    }
}

pub open spec fn window(len: int, limit: Option<u32>, default: int) -> int {
    let page = match limit {
        Some(l) => l as int,
        None => default,
    };
    if page < len { page } else { len }
}

/// `readable` of the first `n` entries looks at those entries only.
proof fn lemma_readable_prefix<T>(s: Seq<Option<T>>, t: Seq<Option<T>>, n: int)
    requires
        0 <= n <= s.len(),
        n <= t.len(),
        forall|j: int| 0 <= j < n ==> s[j] == t[j],
    ensures
        readable(s, n) == readable(t, n),
    decreases n,
{
    if n > 0 {
        lemma_readable_prefix(s, t, n - 1);
    }
}

/// List markets in ascending id order. `entries` are all stored markets
/// with their ids, in ascending id order (`None` where one could not be
/// read); of those whose id comes after `start_after`, the first page-size
/// are read (30 by default) and those that could be read are shown.
pub fn query_list_markets(entries: Vec<(u64, Option<Market>)>, start_after: Option<u64>, limit: Option<u32>) -> (res:
    MarketsResponse)
    ensures
        ({
            let after = entries_after(entries@, entries@.len() as int, start_after);
            let shown = readable(after, window(after.len() as int, limit, 30));
            &&& res.markets@.len() == shown.len()
            &&& forall|i: int| 0 <= i < shown.len() ==> shows_market(#[trigger] res.markets@[i], shown[i])
        }),
{
    let page: u64 = match limit {
        Some(l) => l as u64,
        None => 30,
    };
    let mut markets: Vec<MarketResponse> = Vec::new();
    let mut seen: u64 = 0;
    let mut i: usize = 0;
    while i < entries.len()
        invariant
            i <= entries.len(),
            page as int == match limit {
                Some(l) => l as int,
                None => 30,
            },
            seen as int == entries_after(entries@, i as int, start_after).len(),
            seen <= i,
            markets@.len() == readable(
                entries_after(entries@, i as int, start_after),
                if seen < page { seen as int } else { page as int },
            ).len(),
            forall|j: int|
                0 <= j < markets@.len() ==> shows_market(
                    #[trigger] markets@[j],
                    readable(
                        entries_after(entries@, i as int, start_after),
                        if seen < page { seen as int } else { page as int },
                    )[j],
                ),
        decreases entries.len() - i,
    {
        let ghost before = entries_after(entries@, i as int, start_after);
        let ghost cut: int = if seen < page { seen as int } else { page as int };
        let counts = match start_after {
            Some(s) => entries[i].0 > s,
            None => true,
        };
        if counts {
            let ghost after = before.push(entries@[i as int].1);
            assert(entries_after(entries@, i + 1, start_after) == after);
            proof {
                lemma_readable_prefix(before, after, cut);
            }
            if seen < page {
                match &entries[i].1 {
                    Some(m) => {
                        markets.push(market_response(m));
                    },
                    None => {},
                }
            }
            seen = seen + 1;
        } else {
            assert(entries_after(entries@, i + 1, start_after) == before);
        }
        i = i + 1;
    }
    MarketsResponse { markets }
}

/// `out` shows the position `p`.
pub open spec fn shows_position(out: PositionResponse, p: Position) -> bool {
    &&& out.owner@ == p.owner@
    &&& out.market_id == p.market_id
    &&& out.outcome@ == p.outcome@
    &&& out.amount == p.amount
    &&& out.avg_price == p.avg_price
}

pub fn position_response(p: &Position) -> (out: PositionResponse)
    ensures
        shows_position(out, *p),
{
    PositionResponse {
        owner: p.owner.clone(),
        market_id: p.market_id,
        outcome: p.outcome.clone(),
        amount: p.amount,
        avg_price: p.avg_price,
    }
}

/// The position stored under `(market_id, owner, outcome)`.
pub fn query_position(position: Result<Position, StdFailure>) -> (res: Result<PositionResponse, StdFailure>)
    ensures
        match position {
            Err(e) => res == Err::<PositionResponse, StdFailure>(e),
            Ok(p) => res matches Ok(out) && shows_position(out, p),
        },
{
    match position {
        Err(e) => Err(e),
        Ok(p) => Ok(position_response(&p)),
    }
}

/// The nonzero positions among `positions`, in order.
pub open spec fn nonzero_positions(positions: Seq<Option<Position>>) -> Seq<Position>
    decreases positions.len(),
{
    if positions.len() == 0 {
        Seq::empty()
    } else {
        let before = nonzero_positions(positions.drop_last());
        match positions.last() {
            Some(p) => if p.amount != 0 {
                before.push(p)
            } else {
                before
            },
            None => before,
        }
    }
}

/// The positions listed for the first `n` markets: market by market, the
/// nonzero positions in the order of its outcomes, and no further market
/// once `limit` positions are listed.
pub open spec fn listed_positions(markets: Seq<Option<Seq<Option<Position>>>>, n: int, limit: int) -> Seq<
    Position,
>
    decreases n,
{
    if n <= 0 {
        Seq::empty()
    } else {
        let before = listed_positions(markets, n - 1, limit);
        if before.len() >= limit {
            before
        } else {
            match markets[n - 1] {
                Some(ps) => before + nonzero_positions(ps),
                None => before,
            }
        }
    }
}

/// A user's positions, market by market in ascending id order, for the
/// markets whose id comes after `start_after`. `stored` holds, for each
/// market id up to the market count, the user's position in each of the
/// market's outcomes (`None` where there is none or it could not be read),
/// or `None` where the market could not be read. Markets are visited until
/// at least the limit (30 by default) is listed.
pub fn query_user_positions(
    stored: Vec<(u64, Option<Vec<Option<Position>>>)>,
    start_after: Option<u64>,
    limit: Option<u32>,
) -> (res:
    PositionsResponse)
    ensures
        ({
            let listed = listed_positions(
                entries_after(stored@, stored@.len() as int, start_after).map_values(|m: Option<Vec<Option<Position>>>| match m {
                    Some(v) => Some(v@),
                    None => None,
                }),
                entries_after(stored@, stored@.len() as int, start_after).len() as int,
                match limit {
                    Some(l) => l as int,
                    None => 30,
                },
            );
            &&& res.positions@.len() == listed.len()
            &&& forall|i: int| 0 <= i < listed.len() ==> shows_position(#[trigger] res.positions@[i], listed[i])
        }),
{
    let markets = keep_after(stored, start_after);
    let page: u64 = match limit {
        Some(l) => l as u64,
        None => 30,
    };
    let ghost views = markets@.map_values(|m: Option<Vec<Option<Position>>>| match m {
        Some(v) => Some(v@),
        None => None,
    });
    let ghost lim = page as int;
    let mut positions: Vec<PositionResponse> = Vec::new();
    let mut i: usize = 0;
    while i < markets.len()
        invariant
            i <= markets.len(),
            views == markets@.map_values(|m: Option<Vec<Option<Position>>>| match m {
                Some(v) => Some(v@),
                None => None,
            }),
            lim == page as int,
            positions@.len() == listed_positions(views, i as int, lim).len(),
            forall|j: int|
                0 <= j < positions@.len() ==> shows_position(
                    #[trigger] positions@[j],
                    listed_positions(views, i as int, lim)[j],
                ),
        ensures
            positions@.len() == listed_positions(views, markets@.len() as int, lim).len(),
            forall|j: int|
                0 <= j < positions@.len() ==> shows_position(
                    #[trigger] positions@[j],
                    listed_positions(views, markets@.len() as int, lim)[j],
                ),
        decreases markets.len() - i,
    {
        if positions.len() as u64 >= page {
            proof {
                lemma_listed_stays(views, i as int, markets@.len() as int, lim);
            }
            break;
        }
        let ghost before = listed_positions(views, i as int, lim);
        match &markets[i] {
            Some(ps) => {
                let mut k: usize = 0;
                while k < ps.len()
                    invariant
                        k <= ps.len(),
                        positions@.len() == before.len() + nonzero_positions(ps@.take(k as int)).len(),
                        forall|j: int|
                            0 <= j < positions@.len() ==> shows_position(
                                #[trigger] positions@[j],
                                (before + nonzero_positions(ps@.take(k as int)))[j],
                            ),
                    decreases ps.len() - k,
                {
                    assert(ps@.take(k + 1).drop_last() =~= ps@.take(k as int));
                    match &ps[k] {
                        Some(p) => {
                            if p.amount != 0 {
                                positions.push(position_response(p));
                            }
                        },
                        None => {},
                    }
                    assert(before + nonzero_positions(ps@.take(k + 1)) =~= if ps@[k as int] matches Some(p) && p.amount != 0 {
                        (before + nonzero_positions(ps@.take(k as int))).push(ps@[k as int]->Some_0)
                    } else {
                        before + nonzero_positions(ps@.take(k as int))
                    });
                    k = k + 1;
                }
                assert(ps@.take(ps@.len() as int) =~= ps@);
                assert(views[i as int] == Some(ps@));
            },
            None => {
                assert(views[i as int] == None::<Seq<Option<Position>>>);
                assert(before + Seq::<Position>::empty() =~= before);
            },
        }
        i = i + 1;
    }
    PositionsResponse { positions }
}

proof fn lemma_listed_stays(markets: Seq<Option<Seq<Option<Position>>>>, n: int, m: int, limit: int)
    requires
        0 <= n <= m,
        listed_positions(markets, n, limit).len() >= limit,
    ensures
        listed_positions(markets, m, limit) == listed_positions(markets, n, limit),
    decreases m - n,
{
    if n < m {
        lemma_listed_stays(markets, n, m - 1, limit);
    }
}

/// `out` shows the order `o`, its side by name.
pub open spec fn shows_order(out: OrderResponse, o: Order) -> bool {
    &&& out.id == o.id
    &&& out.market_id == o.market_id
    &&& out.owner@ == o.owner@
    &&& out.outcome@ == o.outcome@
    &&& out.side@ == side_label(o.side)
    &&& out.amount == o.amount
    &&& out.price == o.price
    &&& out.filled == o.filled
    &&& out.created_at == o.created_at
}

/// The orders of a market, newest first. `entries` are the market's stored
/// orders in descending id order; the first 100 are read and those that
/// could be read are shown.
pub fn query_market_orders(entries: Vec<Option<Order>>) -> (res: OrdersResponse)
    ensures
        ({
            let shown = readable(entries@, if entries@.len() < 100 { entries@.len() as int } else { 100 });
            &&& res.orders@.len() == shown.len()
            &&& forall|i: int| 0 <= i < shown.len() ==> shows_order(#[trigger] res.orders@[i], shown[i])
        }),
{
    let end: usize = if entries.len() < 100 { entries.len() } else { 100 };
    let mut orders: Vec<OrderResponse> = Vec::new();
    let mut i: usize = 0;
    while i < end
        invariant
            end <= entries.len(),
            end == (if entries@.len() < 100 { entries@.len() as int } else { 100 }),
            i <= end,
            orders@.len() == readable(entries@, i as int).len(),
            forall|j: int| 0 <= j < orders@.len() ==> shows_order(#[trigger] orders@[j], readable(entries@, i as int)[j]),
        decreases end - i,
    {
        match &entries[i] {
            Some(o) => {
                orders.push(
                    OrderResponse {
                        id: o.id,
                        market_id: o.market_id,
                        owner: o.owner.clone(),
                        outcome: o.outcome.clone(),
                        side: side_name(o.side),
                        amount: o.amount,
                        price: o.price,
                        filled: o.filled,
                        created_at: o.created_at,
                    },
                );
            },
            None => {},
        }
        i = i + 1;
    }
    OrdersResponse { orders }
}

} // verus!
