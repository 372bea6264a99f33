//! Answers of the two services: metering-data time series and spot prices.
use vstd::prelude::*;
use crate::calendar::{hour_text_as_utc, minute_key, minute_key_text, parse_hour_text_utc, UtcMinute};
use crate::keyed::KeyedStore;

verus! {

/// Start and end of the interval a document covers.
pub struct PeriodTimeInterval {
    pub start: String,
    pub end: String,
}

/// Start and end of a period, as RFC 3339 timestamps.
pub struct TimeInterval {
    pub start: String,
    pub end: String,
}

/// One reading: its 1-based position within the period, the quantity as
/// decimal text, and the quality flag.
pub struct Point {
    pub position: String,
    pub out_quantity_quantity: String,
    pub out_quantity_quality: String,
}

/// A date range at a fixed resolution with its readings in order.
pub struct Period {
    pub resolution: String,
    pub time_interval: TimeInterval,
    pub point: Vec<Point>,
}

/// The identifier of a metering point.
pub struct MRid {
    pub coding_scheme: String,
    pub name: String,
}

/// The metering point a series belongs to.
pub struct MarketEvaluationPoint {
    pub m_rid: MRid,
}

/// The readings of one metering point, period by period.
pub struct TimeSeries {
    pub m_rid: String,
    pub business_type: String,
    pub curve_type: String,
    pub measurement_unit_name: String,
    pub market_evaluation_point: MarketEvaluationPoint,
    pub period: Vec<Period>,
}

/// The spot price of one hour in one price area. Prices are per MWh, in
/// millionths of the currency.
pub struct Record {
    pub hour_utc: String,
    pub hour_dk: String,
    pub price_area: String,
    pub spot_price_dkk: i64,
    pub spot_price_eur: i64,
}

/// A page of spot prices.
pub struct ElSpotPricesResponse {
    pub total: i64,
    pub filters: String,
    pub sort: String,
    pub limit: i64,
    pub dataset: String,
    pub records: Vec<Record>,
}

/// `a / 1000`, rounded toward zero.
pub open spec fn per_kwh(a: int) -> int {
    if a >= 0 { a / 1000 } else { -((-a) / 1000) }
}

fn per_kwh_exec(a: i64) -> (r: i64)
    ensures
        r == per_kwh(a as int),
{
    let w = a as i128;
    if w >= 0 {
        (w / 1000) as i64
    } else {
        (-((-w) / 1000)) as i64
    }
}

/// The spot prices keyed by the `MM/DD/YYYY HH:MM` of their UTC hour.
pub open spec fn records_map(records: Seq<Record>) -> Map<Seq<char>, Record>
    decreases records.len(),
{
    if records.len() == 0 {
        Map::empty()
    } else {
        let last = records.last();
        records_map(records.drop_last()).insert(minute_key_text(hour_text_as_utc(last.hour_utc@).unwrap()), last)
    }
}

impl Record {
    /// The price in DKK per kWh, in millionths, rounded toward zero.
    pub fn as_kwh_price_dkk(&self) -> (r: i64)
        ensures
            r == per_kwh(self.spot_price_dkk as int),
    {
        per_kwh_exec(self.spot_price_dkk)
    }

    /// The price in EUR per kWh, in millionths, rounded toward zero.
    pub fn as_kwh_price_eur(&self) -> (r: i64)
        ensures
            r == per_kwh(self.spot_price_eur as int),
    {
        per_kwh_exec(self.spot_price_eur)
    }

    /// The UTC hour of the record, or `None` where `hour_utc` is not a
    /// `%Y-%m-%dT%H:%M:%S` timestamp.
    pub fn hour_utc_to_datetime(&self) -> (r: Option<UtcMinute>)
        ensures
            r matches Some(m) ==> hour_text_as_utc(self.hour_utc@) == Some(m.fields()) && m.in_range(),
            r is None ==> hour_text_as_utc(self.hour_utc@) is None,
    {
        parse_hour_text_utc(self.hour_utc.as_str())
    }

    /// The key `MM/DD/YYYY HH:MM` of the record's UTC hour, or `None` where
    /// `hour_utc` is not a `%Y-%m-%dT%H:%M:%S` timestamp.
    pub fn hour_utc_key(&self) -> (r: Option<String>)
        ensures
            r is None <==> hour_text_as_utc(self.hour_utc@) is None,
            r matches Some(k) ==> k@ == minute_key_text(hour_text_as_utc(self.hour_utc@).unwrap()),
    {
        minute_key(self.hour_utc.as_str())
    }
}

impl ElSpotPricesResponse {
    /// The records keyed by their UTC hour; of two records of one hour the
    /// later is kept. `None` where some record's hour cannot be read.
    pub fn into_records_as_map(self) -> (r: Option<KeyedStore<Record>>)
        ensures
            r is None <==> exists|i: int| 0 <= i < self.records@.len()
                && hour_text_as_utc(#[trigger] self.records@[i].hour_utc@) is None,
            r matches Some(m) ==> m.wf() && m@ == records_map(self.records@),
    {
        let ghost all = self.records@;
        let n = self.records.len();
        let mut map: KeyedStore<Record> = KeyedStore::new();
        let mut records = self.records;
        let mut rest: Vec<Record> = Vec::new();
        // Take the records in order: reverse them, then pop.
        while records.len() > 0
            invariant
                all == self.records@,
                all.len() == records@.len() + rest@.len(),
                forall|i: int| 0 <= i < records@.len() ==> #[trigger] records@[i] == all[i],
                forall|i: int| 0 <= i < rest@.len() ==> #[trigger] rest@[i] == all[all.len() - 1 - i],
            decreases records@.len(),
        {
            let r = records.pop().unwrap();
            rest.push(r);
        }
        let mut done: usize = 0;
        while rest.len() > 0
            invariant
                done + rest@.len() == all.len(),
                all.len() == n,
                all == self.records@,
                forall|i: int| 0 <= i < rest@.len() ==> #[trigger] rest@[i] == all[all.len() - 1 - i],
                forall|i: int| 0 <= i < done ==> hour_text_as_utc(#[trigger] all[i].hour_utc@) is Some,
                map.wf(),
                map@ == records_map(all.take(done as int)),
            decreases rest@.len(),
        {
            let r = rest.pop().unwrap();
            assert(r == all[done as int]);
            match r.hour_utc_key() {
                None => {
                    assert(hour_text_as_utc(self.records@[done as int].hour_utc@) is None);
                    return None;
                },
                Some(k) => {
                    assert(all.take(done + 1).drop_last() =~= all.take(done as int));
                    map.insert(k, r);
                },
            }
            done = done + 1;
        }
        assert(all.take(done as int) =~= all);
        Some(map)
    }
}

} // verus!
