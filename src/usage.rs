//! Hourly and daily usage and cost buckets, from a metering time series,
//! a spot-price table and a charge function.
use vstd::prelude::*;
use vstd::string::StringExecFns;
use crate::calendar::{date_key, date_text, hour_key, hour_key_text, rfc3339_as_utc};
use crate::keyed::KeyedStore;
use crate::response::{per_kwh, Period, Point, Record, TimeSeries};
use crate::text::{decimal_text_value, i32_text_value, parse_decimal, parse_i32};

verus! {

broadcast use vstd::string::group_string_axioms;

/// The width of the buckets of a series.
#[derive(Debug, Clone, Copy, PartialEq, Eq, Structural)]
pub enum Granularity {
    Hourly,
    Daily,
    Monthly,
}

/// Energy and cost of a bucket, both in millionths.
#[derive(Debug)]
pub struct Data {
    pub wh: i128,
    pub cost: i128,
}

/// Buckets keyed by calendar key.
pub struct UsageTimeSeries {
    pub data: KeyedStore<Data>,
    pub granularity: Granularity,
}

/// Why metering data could not be aggregated.
#[derive(Debug, Clone, Copy, PartialEq, Eq, Structural)]
pub enum AggregationError {
    /// The answer held no time series.
    NoTimeSeries,
    /// A period's end is not an RFC 3339 timestamp.
    BadTimestamp,
    /// A point's position is not an integer.
    BadPosition,
    /// A point's quantity is not a decimal.
    BadQuantity,
}

/// The date key of the day on which a period ends.
pub open spec fn period_date(per: Period) -> Option<Seq<char>> {
    match rfc3339_as_utc(per.time_interval.end@) {
        Some(f) => Some(date_text(f.0, f.1 as nat, f.2 as nat)),
        None => None,
    }
}

pub open spec fn point_ok(p: Point) -> bool {
    i32_text_value(p.position@) is Some && decimal_text_value(p.out_quantity_quantity@) is Some
}

pub open spec fn period_ok(per: Period) -> bool {
    period_date(per) is Some && forall|j: int| 0 <= j < per.point@.len() ==> point_ok(#[trigger] per.point@[j])
}

/// Every period's end and every point's position and quantity can be read.
pub open spec fn series_ok(ts: TimeSeries) -> bool {
    forall|i: int| 0 <= i < ts.period@.len() ==> period_ok(#[trigger] ts.period@[i])
}

/// The quantity of a point, in millionths.
pub open spec fn qty_of(p: Point) -> int {
    decimal_text_value(p.out_quantity_quantity@).unwrap()
}

/// The key of a point: its period's date and the hour `position - 1`.
pub open spec fn point_key(date: Seq<char>, p: Point) -> Seq<char> {
    hour_key_text(date, i32_text_value(p.position@).unwrap() - 1)
}

/// The key of point `j` of period `i`.
pub open spec fn key_at(ts: TimeSeries, i: int, j: int) -> Seq<char> {
    point_key(period_date(ts.period@[i]).unwrap(), ts.period@[i].point@[j])
}

/// The cost of a point with key `key`: zero where no price has that key or
/// the quantity is the text `0.0`; otherwise what the charge function
/// returns for the price per kWh in EUR, the position and the quantity.
pub open spec fn cost_ok<F: Fn(i64, String, i64) -> i64>(
    charge: F,
    prices: Map<Seq<char>, Record>,
    key: Seq<char>,
    p: Point,
    cost: int,
) -> bool {
    if prices.contains_key(key) && p.out_quantity_quantity@ != "0.0"@ {
        call_ensures(
            charge,
            (per_kwh(prices[key].spot_price_eur as int) as i64, p.position, qty_of(p) as i64),
            cost as i64,
        )
    } else {
        cost == 0
    }
}

/// The bucket of `k` comes from point `j` of period `i`.
pub open spec fn hour_from<F: Fn(i64, String, i64) -> i64>(
    m: Map<Seq<char>, Data>,
    k: Seq<char>,
    ts: TimeSeries,
    prices: Map<Seq<char>, Record>,
    charge: F,
    i: int,
    j: int,
) -> bool {
    0 <= i < ts.period@.len() && 0 <= j < ts.period@[i].point@.len() && key_at(ts, i, j) == k
        && m[k].wh == qty_of(ts.period@[i].point@[j])
        && cost_ok(charge, prices, k, ts.period@[i].point@[j], m[k].cost as int)
}

/// Point `(i, j)` comes before point `(ui, uj)` in the order of the series.
pub open spec fn before(i: int, j: int, ui: int, uj: int) -> bool {
    i < ui || (i == ui && j < uj)
}

/// No point after `(i, j)` and before `(ui, uj)` has the key `k`.
pub open spec fn last_with_key(ts: TimeSeries, k: Seq<char>, i: int, j: int, ui: int, uj: int) -> bool {
    forall|i2: int, j2: int|
        0 <= i2 < ts.period@.len() && 0 <= j2 < ts.period@[i2].point@.len() && before(i, j, i2, j2)
            && before(i2, j2, ui, uj) ==> #[trigger] key_at(ts, i2, j2) != k
}

/// Hourly buckets: every point has one, under its key, and each bucket holds
/// the quantity and the cost of the last point with its key.
pub open spec fn hourly_ok<F: Fn(i64, String, i64) -> i64>(
    m: Map<Seq<char>, Data>,
    ts: TimeSeries,
    prices: Map<Seq<char>, Record>,
    charge: F,
) -> bool {
    &&& forall|i: int, j: int|
        0 <= i < ts.period@.len() && 0 <= j < ts.period@[i].point@.len() ==> m.contains_key(#[trigger] key_at(ts, i, j))
    &&& forall|k: Seq<char>| #[trigger] m.contains_key(k) ==> exists|i: int, j: int|
        hour_from(m, k, ts, prices, charge, i, j) && last_with_key(ts, k, i, j, ts.period@.len() as int, 0)
}

/// The sum of the quantities of some points.
pub open spec fn total_qty(pts: Seq<Point>) -> int
    decreases pts.len(),
{
    if pts.len() == 0 { 0 } else { total_qty(pts.drop_last()) + qty_of(pts.last()) }
}

pub open spec fn seq_sum(s: Seq<int>) -> int
    decreases s.len(),
{
    if s.len() == 0 { 0 } else { seq_sum(s.drop_last()) + s.last() }
}

/// `t` truncated toward zero to a multiple of a hundredth (in millionths).
pub open spec fn trunc_cents(t: int) -> int {
    if t >= 0 { (t / 10000) * 10000 } else { -(((-t) / 10000) * 10000) }
}

/// A day's bucket: the total quantity truncated to hundredths, and the sum of
/// the costs of its points.
pub open spec fn day_ok<F: Fn(i64, String, i64) -> i64>(
    d: Data,
    per: Period,
    date: Seq<char>,
    prices: Map<Seq<char>, Record>,
    charge: F,
) -> bool {
    &&& d.wh == trunc_cents(total_qty(per.point@))
    &&& exists|costs: Seq<int>| #![trigger seq_sum(costs)]
        costs.len() == per.point@.len()
        && (forall|j: int| 0 <= j < costs.len() ==>
            cost_ok(charge, prices, point_key(date, per.point@[j]), per.point@[j], #[trigger] costs[j]))
        && d.cost == seq_sum(costs)
}

/// No period after `i` and before `ui` ends on the date `k`.
pub open spec fn last_with_date(ts: TimeSeries, k: Seq<char>, i: int, ui: int) -> bool {
    forall|i2: int| i < i2 < ui ==> period_date(#[trigger] ts.period@[i2]) != Some(k)
}

/// Daily buckets: every period has one under its date, and each bucket is
/// the day bucket of the last period with that date.
pub open spec fn daily_ok<F: Fn(i64, String, i64) -> i64>(
    m: Map<Seq<char>, Data>,
    ts: TimeSeries,
    prices: Map<Seq<char>, Record>,
    charge: F,
) -> bool {
    &&& forall|i: int| 0 <= i < ts.period@.len() ==> m.contains_key(#[trigger] period_date(ts.period@[i]).unwrap())
    &&& forall|k: Seq<char>| #[trigger] m.contains_key(k) ==> exists|i: int|
        0 <= i < ts.period@.len() && period_date(#[trigger] ts.period@[i]) == Some(k)
            && day_ok(m[k], ts.period@[i], k, prices, charge) && last_with_date(ts, k, i, ts.period@.len() as int)
}

/// The key, quantity and cost of one point.
fn point_entry<F: Fn(i64, String, i64) -> i64>(
    prices: &KeyedStore<Record>,
    date: &String,
    p: &Point,
    charge: &F,
) -> (r: Result<(String, i64, i64), AggregationError>)
    requires
        prices.wf(),
        forall|a: i64, s: String, q: i64| call_requires(*charge, (a, s, q)),
    ensures
        r is Ok <==> point_ok(*p),
        r matches Ok((k, q, c)) ==> k@ == point_key(date@, *p) && q == qty_of(*p)
            && cost_ok(*charge, prices@, k@, *p, c as int),
{
    let pos = match parse_i32(p.position.as_str()) {
        None => return Err(AggregationError::BadPosition),
        Some(v) => v,
    };
    let qty = match parse_decimal(p.out_quantity_quantity.as_str()) {
        None => return Err(AggregationError::BadQuantity),
        Some(q) => q,
    };
    let key = hour_key(date.as_str(), pos as i64 - 1);
    let zero = String::from_str("0.0");
    let cost = match prices.get(&key) {
        None => 0,
        Some(rec) => {
            if p.out_quantity_quantity == zero {
                0
            } else {
                charge(rec.as_kwh_price_eur(), p.position.clone(), qty)
            }
        },
    };
    Ok((key, qty, cost))
}

/// The bucket of one day: its total quantity truncated to hundredths and
/// the sum of its points' costs.
fn day_bucket<F: Fn(i64, String, i64) -> i64>(
    prices: &KeyedStore<Record>,
    date: &String,
    per: &Period,
    charge: &F,
) -> (r: Result<Data, AggregationError>)
    requires
        prices.wf(),
        forall|a: i64, s: String, q: i64| call_requires(*charge, (a, s, q)),
    ensures
        r is Ok <==> forall|j: int| 0 <= j < per.point@.len() ==> point_ok(#[trigger] per.point@[j]),
        r matches Ok(d) ==> day_ok(d, *per, date@, prices@, *charge),
{
    let ghost pts = per.point@;
    let ghost mut costs: Seq<int> = Seq::empty();
    let mut total: i128 = 0;
    let mut total_cost: i128 = 0;
    let mut j: usize = 0;
    while j < per.point.len()
        invariant
            prices.wf(),
            forall|a: i64, s: String, q: i64| call_requires(*charge, (a, s, q)),
            pts == per.point@,
            j <= pts.len(),
            forall|jj: int| 0 <= jj < j ==> point_ok(#[trigger] pts[jj]),
            total == total_qty(pts.take(j as int)),
            costs.len() == j,
            forall|jj: int| 0 <= jj < j ==>
                cost_ok(*charge, prices@, point_key(date@, pts[jj]), pts[jj], #[trigger] costs[jj]),
            total_cost == seq_sum(costs),
            -(j as int) * 0x8000_0000_0000_0000 <= total <= (j as int) * 0x8000_0000_0000_0000,
            -(j as int) * 0x8000_0000_0000_0000 <= total_cost <= (j as int) * 0x8000_0000_0000_0000,
        decreases pts.len() - j,
    {
        let e = point_entry(prices, date, &per.point[j], charge);
        let (q, c) = match e {
            Err(err) => return Err(err),
            Ok((_, q, c)) => (q, c),
        };
        proof {
            assert(pts.take(j + 1).drop_last() =~= pts.take(j as int));
            assert((costs.push(c as int)).drop_last() =~= costs);
            assert(j + 1 <= usize::MAX);
            assert(usize::MAX <= 0xffff_ffff_ffff_ffff);
            assert(-((j + 1) as int) * 0x8000_0000_0000_0000 <= total + q <= ((j + 1) as int) * 0x8000_0000_0000_0000) by (nonlinear_arith)
                requires -(j as int) * 0x8000_0000_0000_0000 <= total <= (j as int) * 0x8000_0000_0000_0000,
                    -0x8000_0000_0000_0000 <= q < 0x8000_0000_0000_0000;
            assert(-((j + 1) as int) * 0x8000_0000_0000_0000 <= total_cost + c <= ((j + 1) as int) * 0x8000_0000_0000_0000) by (nonlinear_arith)
                requires -(j as int) * 0x8000_0000_0000_0000 <= total_cost <= (j as int) * 0x8000_0000_0000_0000,
                    -0x8000_0000_0000_0000 <= c < 0x8000_0000_0000_0000;
            assert(((j + 1) as int) * 0x8000_0000_0000_0000 <= 0xffff_ffff_ffff_ffff * 0x8000_0000_0000_0000) by (nonlinear_arith)
                requires j + 1 <= 0xffff_ffff_ffff_ffff;
        }
        total = total + q as i128;
        total_cost = total_cost + c as i128;
        proof {
            let old_costs = costs;
            costs = costs.push(c as int);
            assert forall|jj: int| 0 <= jj < j + 1 implies
                cost_ok(*charge, prices@, point_key(date@, pts[jj]), pts[jj], #[trigger] costs[jj]) by {
                if jj < j {
                    assert(costs[jj] == old_costs[jj]);
                }
            }
        }
        j = j + 1;
    }
    proof {
        assert(pts.take(j as int) =~= pts);
    }
    let wh = if total >= 0 { (total / 10000) * 10000 } else { -(((-total) / 10000) * 10000) };
    let d = Data { wh, cost: total_cost };
    assert(day_ok(d, *per, date@, prices@, *charge)) by {
        assert(seq_sum(costs) == d.cost);
    }
    Ok(d)
}

impl UsageTimeSeries {
    /// An empty series of the given granularity.
    pub fn new(gran: Granularity) -> (r: Self)
        ensures
            r.granularity == gran,
            r.data.wf(),
            r.data@ == Map::<Seq<char>, Data>::empty(),
    {
        UsageTimeSeries { granularity: gran, data: KeyedStore::new() }
    }
}

impl UsageTimeSeries {
    /// Daily buckets of the last time series: one per period, under the
    /// date on which the period ends. Fails where there is no series or a
    /// timestamp, position or quantity in it cannot be read.
    pub fn new_daily<F: Fn(i64, String, i64) -> i64>(
        source: &Vec<TimeSeries>,
        prices: &KeyedStore<Record>,
        charge: &F,
    ) -> (r: Result<Self, AggregationError>)
        requires
            prices.wf(),
            forall|a: i64, s: String, q: i64| call_requires(*charge, (a, s, q)),
        ensures
            r is Ok <==> source@.len() > 0 && series_ok(source@.last()),
            r matches Ok(u) ==> u.granularity == Granularity::Daily && u.data.wf()
                && daily_ok(u.data@, source@.last(), prices@, *charge),
    {
        if source.len() == 0 {
            return Err(AggregationError::NoTimeSeries);
        }
        let ts = &source[source.len() - 1];
        let ghost periods = ts.period@;
        let mut payload = UsageTimeSeries::new(Granularity::Daily);
        let mut i: usize = 0;
        while i < ts.period.len()
            invariant
                prices.wf(),
                forall|a: i64, s: String, q: i64| call_requires(*charge, (a, s, q)),
                *ts == source@.last(),
                periods == ts.period@,
                i <= periods.len(),
                payload.granularity == Granularity::Daily,
                payload.data.wf(),
                forall|ii: int| 0 <= ii < i ==> period_ok(#[trigger] periods[ii]),
                forall|ii: int| 0 <= ii < i ==> payload.data@.contains_key(#[trigger] period_date(periods[ii]).unwrap()),
                forall|k: Seq<char>| #[trigger] payload.data@.contains_key(k) ==> exists|ii: int|
                    0 <= ii < i && period_date(#[trigger] periods[ii]) == Some(k)
                        && day_ok(payload.data@[k], periods[ii], k, prices@, *charge)
                        && last_with_date(*ts, k, ii, i as int),
            decreases periods.len() - i,
        {
            let per = &ts.period[i];
            let key = match date_key(per.time_interval.end.as_str()) {
                None => {
                    assert(!period_ok(periods[i as int]));
                    return Err(AggregationError::BadTimestamp);
                },
                Some(k) => k,
            };
            let d = match day_bucket(prices, &key, per, charge) {
                Err(e) => {
                    let ghost jj = choose|j: int| 0 <= j < per.point@.len() && !point_ok(#[trigger] per.point@[j]);
                    assert(!period_ok(periods[i as int]));
                    return Err(e);
                },
                Ok(d) => d,
            };
            let ghost k0 = key@;
            let ghost old_m = payload.data@;
            payload.data.insert(key, d);
            proof {
                assert(period_date(periods[i as int]) == Some(k0));
                assert forall|ii: int| 0 <= ii < i + 1 implies payload.data@.contains_key(#[trigger] period_date(periods[ii]).unwrap()) by {
                    if ii < i {
                        assert(old_m.contains_key(period_date(periods[ii]).unwrap()));
                    }
                }
                assert forall|k: Seq<char>| #[trigger] payload.data@.contains_key(k) implies exists|ii: int|
                    0 <= ii < i + 1 && period_date(#[trigger] periods[ii]) == Some(k)
                        && day_ok(payload.data@[k], periods[ii], k, prices@, *charge)
                        && last_with_date(*ts, k, ii, i + 1) by {
                    if k == k0 {
                        assert(period_date(periods[i as int]) == Some(k));
                        assert(last_with_date(*ts, k, i as int, i + 1));
                    } else {
                        assert(old_m.contains_key(k));
                        let ii = choose|ii: int| 0 <= ii < i && period_date(#[trigger] periods[ii]) == Some(k)
                            && day_ok(old_m[k], periods[ii], k, prices@, *charge)
                            && last_with_date(*ts, k, ii, i as int);
                        assert(period_date(periods[ii]) == Some(k));
                        assert(last_with_date(*ts, k, ii, i + 1));
                    }
                }
            }
            i = i + 1;
        }
        Ok(payload)
    }
}

impl UsageTimeSeries {
    /// Hourly buckets of the last time series: one per point, under its
    /// date and hour. Fails where there is no series or a timestamp,
    /// position or quantity in it cannot be read.
    pub fn new_hourly<F: Fn(i64, String, i64) -> i64>(
        source: &Vec<TimeSeries>,
        prices: &KeyedStore<Record>,
        charge: &F,
    ) -> (r: Result<Self, AggregationError>)
        requires
            prices.wf(),
            forall|a: i64, s: String, q: i64| call_requires(*charge, (a, s, q)),
        ensures
            r is Ok <==> source@.len() > 0 && series_ok(source@.last()),
            r matches Ok(u) ==> u.granularity == Granularity::Hourly && u.data.wf()
                && hourly_ok(u.data@, source@.last(), prices@, *charge),
    {
        if source.len() == 0 {
            return Err(AggregationError::NoTimeSeries);
        }
        let ts = &source[source.len() - 1];
        let ghost t = *ts;
        let ghost periods = ts.period@;
        let mut payload = UsageTimeSeries::new(Granularity::Hourly);
        let mut i: usize = 0;
        while i < ts.period.len()
            invariant
                prices.wf(),
                forall|a: i64, s: String, q: i64| call_requires(*charge, (a, s, q)),
                *ts == source@.last(),
                source@.len() > 0,
                t == *ts,
                periods == ts.period@,
                i <= periods.len(),
                payload.granularity == Granularity::Hourly,
                payload.data.wf(),
                forall|ii: int| 0 <= ii < i ==> period_ok(#[trigger] periods[ii]),
                forall|ii: int, jj: int| 0 <= ii < i && 0 <= jj < periods[ii].point@.len()
                    ==> payload.data@.contains_key(#[trigger] key_at(t, ii, jj)),
                forall|k: Seq<char>| #[trigger] payload.data@.contains_key(k) ==> exists|ii: int, jj: int|
                    hour_from(payload.data@, k, t, prices@, *charge, ii, jj) && last_with_key(t, k, ii, jj, i as int, 0),
            decreases periods.len() - i,
        {
            let per = &ts.period[i];
            let date = match date_key(per.time_interval.end.as_str()) {
                None => {
                    assert(!period_ok(periods[i as int]));
                    return Err(AggregationError::BadTimestamp);
                },
                Some(k) => k,
            };
            let ghost pts = per.point@;
            let mut j: usize = 0;
            while j < per.point.len()
                invariant
                    prices.wf(),
                    forall|a: i64, s: String, q: i64| call_requires(*charge, (a, s, q)),
                    t == *ts,
                    *ts == source@.last(),
                    source@.len() > 0,
                    periods == ts.period@,
                    i < periods.len(),
                    *per == periods[i as int],
                    pts == per.point@,
                    period_date(periods[i as int]) == Some(date@),
                    j <= pts.len(),
                    payload.granularity == Granularity::Hourly,
                    payload.data.wf(),
                    forall|ii: int| 0 <= ii < i ==> period_ok(#[trigger] periods[ii]),
                    forall|jj: int| 0 <= jj < j ==> point_ok(#[trigger] pts[jj]),
                    forall|ii: int, jj: int| 0 <= ii < i && 0 <= jj < periods[ii].point@.len()
                        ==> payload.data@.contains_key(#[trigger] key_at(t, ii, jj)),
                    forall|jj: int| 0 <= jj < j ==> payload.data@.contains_key(#[trigger] key_at(t, i as int, jj)),
                    forall|k: Seq<char>| #[trigger] payload.data@.contains_key(k) ==> exists|ii: int, jj: int|
                        hour_from(payload.data@, k, t, prices@, *charge, ii, jj) && last_with_key(t, k, ii, jj, i as int, j as int),
                decreases pts.len() - j,
            {
                let (key, q, c) = match point_entry(prices, &date, &per.point[j], charge) {
                    Err(e) => {
                        assert(!point_ok(pts[j as int]));
                        assert(!period_ok(periods[i as int]));
                        return Err(e);
                    },
                    Ok(e) => e,
                };
                let ghost k0 = key@;
                let ghost old_m = payload.data@;
                assert(key_at(t, i as int, j as int) == k0);
                payload.data.insert(key, Data { wh: q as i128, cost: c as i128 });
                proof {
                    assert(hour_from(payload.data@, k0, t, prices@, *charge, i as int, j as int));
                    assert(last_with_key(t, k0, i as int, j as int, i as int, j + 1));
                    assert forall|ii: int, jj: int| 0 <= ii < i && 0 <= jj < periods[ii].point@.len()
                        implies payload.data@.contains_key(#[trigger] key_at(t, ii, jj)) by {
                        assert(old_m.contains_key(key_at(t, ii, jj)));
                    }
                    assert forall|jj: int| 0 <= jj < j + 1 implies payload.data@.contains_key(#[trigger] key_at(t, i as int, jj)) by {
                        if jj < j {
                            assert(old_m.contains_key(key_at(t, i as int, jj)));
                        }
                    }
                    assert forall|k: Seq<char>| #[trigger] payload.data@.contains_key(k) implies exists|ii: int, jj: int|
                        hour_from(payload.data@, k, t, prices@, *charge, ii, jj) && last_with_key(t, k, ii, jj, i as int, j + 1) by {
                        if k != k0 {
                            assert(old_m.contains_key(k));
                            let (ii, jj) = choose|ii: int, jj: int| hour_from(old_m, k, t, prices@, *charge, ii, jj)
                                && last_with_key(t, k, ii, jj, i as int, j as int);
                            assert(hour_from(payload.data@, k, t, prices@, *charge, ii, jj));
                            assert(last_with_key(t, k, ii, jj, i as int, j + 1)) by {
                                assert(key_at(t, i as int, j as int) == k0);
                            }
                        } else {
                            assert(hour_from(payload.data@, k, t, prices@, *charge, i as int, j as int));
                        }
                    }
                }
                j = j + 1;
            }
            proof {
                assert forall|k: Seq<char>| #[trigger] payload.data@.contains_key(k) implies exists|ii: int, jj: int|
                    hour_from(payload.data@, k, t, prices@, *charge, ii, jj) && last_with_key(t, k, ii, jj, i + 1, 0) by {
                    let (ii, jj) = choose|ii: int, jj: int| hour_from(payload.data@, k, t, prices@, *charge, ii, jj)
                        && last_with_key(t, k, ii, jj, i as int, j as int);
                    assert(last_with_key(t, k, ii, jj, i + 1, 0));
                }
                assert forall|ii: int, jj: int| 0 <= ii < i + 1 && 0 <= jj < periods[ii].point@.len()
                    implies payload.data@.contains_key(#[trigger] key_at(t, ii, jj)) by {
                    if ii == i {
                        assert(payload.data@.contains_key(key_at(t, i as int, jj)));
                    }
                }
            }
            i = i + 1;
        }
        Ok(payload)
    }
}

} // verus!
