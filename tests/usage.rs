use eloverblik::calendar::{date_key, hour_key, minute_key};
use eloverblik::keyed::KeyedStore;
use eloverblik::response::{
    ElSpotPricesResponse, MRid, MarketEvaluationPoint, Period, Point, Record, TimeInterval, TimeSeries,
};
use eloverblik::text::{parse_decimal, parse_i32};
use eloverblik::usage::{AggregationError, Granularity, UsageTimeSeries};

fn point(position: &str, quantity: &str) -> Point {
    Point {
        position: position.to_string(),
        out_quantity_quantity: quantity.to_string(),
        out_quantity_quality: "A04".to_string(),
    }
}

fn series(end: &str, points: Vec<Point>) -> TimeSeries {
    TimeSeries {
        m_rid: "571313000000000000".to_string(),
        business_type: "A04".to_string(),
        curve_type: "A01".to_string(),
        measurement_unit_name: "KWH".to_string(),
        market_evaluation_point: MarketEvaluationPoint {
            m_rid: MRid { coding_scheme: "A10".to_string(), name: "571313000000000000".to_string() },
        },
        period: vec![Period {
            resolution: "PT1H".to_string(),
            time_interval: TimeInterval { start: "2023-08-01T00:00:00Z".to_string(), end: end.to_string() },
            point: points,
        }],
    }
}

fn record(hour_utc: &str, eur: i64) -> Record {
    Record {
        hour_utc: hour_utc.to_string(),
        hour_dk: hour_utc.to_string(),
        price_area: "DK2".to_string(),
        spot_price_dkk: eur * 7,
        spot_price_eur: eur,
    }
}

fn charge(price: i64, position: String, quantity: i64) -> i64 {
    price * 3 + position.len() as i64 + quantity / 1_000_000
}

#[test]
fn hourly_example() {
    let source = vec![series("2023-08-02T00:00:00Z", vec![point("1", "500"), point("24", "0.0")])];
    let mut prices = KeyedStore::new();
    prices.insert("08/02/2023 00:00".to_string(), record("2023-08-02T00:00:00", 300_000));
    prices.insert("08/02/2023 23:00".to_string(), record("2023-08-02T23:00:00", 300_000));
    let u = UsageTimeSeries::new_hourly(&source, &prices, &charge).unwrap();
    assert_eq!(u.granularity, Granularity::Hourly);
    assert_eq!(u.data.len(), 2);
    let first = u.data.get(&"08/02/2023 00:00".to_string()).unwrap();
    assert_eq!(first.wh, 500_000_000);
    assert_eq!(first.cost, charge(300, "1".to_string(), 500_000_000) as i128);
    let last = u.data.get(&"08/02/2023 23:00".to_string()).unwrap();
    assert_eq!(last.wh, 0);
    assert_eq!(last.cost, 0);
}

#[test]
fn hourly_without_price_costs_nothing() {
    let source = vec![series("2023-08-02T00:00:00Z", vec![point("3", "1.5")])];
    let prices = KeyedStore::new();
    let u = UsageTimeSeries::new_hourly(&source, &prices, &charge).unwrap();
    let b = u.data.get(&"08/02/2023 02:00".to_string()).unwrap();
    assert_eq!(b.wh, 1_500_000);
    assert_eq!(b.cost, 0);
}

#[test]
fn hourly_uses_last_series() {
    let source = vec![
        series("2023-07-02T00:00:00Z", vec![point("1", "1")]),
        series("2023-08-02T00:00:00Z", vec![point("11", "2")]),
    ];
    let prices = KeyedStore::new();
    let u = UsageTimeSeries::new_hourly(&source, &prices, &charge).unwrap();
    assert_eq!(u.data.len(), 1);
    assert_eq!(u.data.get(&"08/02/2023 10:00".to_string()).unwrap().wh, 2_000_000);
}

#[test]
fn daily_truncates_toward_zero() {
    let source = vec![series("2023-08-02T00:00:00Z", vec![point("1", "100"), point("2", "200"), point("3", "50.555")])];
    let prices = KeyedStore::new();
    let u = UsageTimeSeries::new_daily(&source, &prices, &charge).unwrap();
    assert_eq!(u.granularity, Granularity::Daily);
    let d = u.data.get(&"08/02/2023".to_string()).unwrap();
    assert_eq!(d.wh, 350_550_000);
    assert_eq!(d.cost, 0);
}

#[test]
fn daily_truncates_negative_toward_zero() {
    let source = vec![series("2023-08-02T00:00:00Z", vec![point("1", "-1.239")])];
    let prices = KeyedStore::new();
    let u = UsageTimeSeries::new_daily(&source, &prices, &charge).unwrap();
    assert_eq!(u.data.get(&"08/02/2023".to_string()).unwrap().wh, -1_230_000);
}

#[test]
fn daily_sums_costs() {
    let source = vec![series("2023-08-02T10:00:00Z", vec![point("1", "2"), point("2", "3")])];
    let mut prices = KeyedStore::new();
    prices.insert("08/02/2023 00:00".to_string(), record("2023-08-02T00:00:00", 1_000_000));
    prices.insert("08/02/2023 01:00".to_string(), record("2023-08-02T01:00:00", 2_000_000));
    let u = UsageTimeSeries::new_daily(&source, &prices, &charge).unwrap();
    let d = u.data.get(&"08/02/2023".to_string()).unwrap();
    let expected = charge(1000, "1".to_string(), 2_000_000) + charge(2000, "2".to_string(), 3_000_000);
    assert_eq!(d.cost, expected as i128);
    assert_eq!(d.wh, 5_000_000);
}

#[test]
fn aggregation_errors() {
    let prices = KeyedStore::new();
    let none: Vec<TimeSeries> = Vec::new();
    assert!(matches!(UsageTimeSeries::new_hourly(&none, &prices, &charge), Err(AggregationError::NoTimeSeries)));
    let bad_time = vec![series("yesterday", vec![point("1", "1")])];
    assert!(matches!(UsageTimeSeries::new_daily(&bad_time, &prices, &charge), Err(AggregationError::BadTimestamp)));
    let bad_pos = vec![series("2023-08-02T00:00:00Z", vec![point("x", "1")])];
    assert!(matches!(UsageTimeSeries::new_hourly(&bad_pos, &prices, &charge), Err(AggregationError::BadPosition)));
    let bad_qty = vec![series("2023-08-02T00:00:00Z", vec![point("1", "1e3")])];
    assert!(matches!(UsageTimeSeries::new_daily(&bad_qty, &prices, &charge), Err(AggregationError::BadQuantity)));
}

#[test]
fn new_series_is_empty() {
    let u = UsageTimeSeries::new(Granularity::Monthly);
    assert_eq!(u.granularity, Granularity::Monthly);
    assert_eq!(u.data.len(), 0);
}

#[test]
fn calendar_keys() {
    assert_eq!(date_key("2023-08-02T00:00:00Z").unwrap(), "08/02/2023");
    assert_eq!(date_key("2023-08-02T01:00:00+02:00").unwrap(), "08/01/2023");
    assert!(date_key("not a date").is_none());
    assert_eq!(hour_key("08/01/2023", 0), "08/01/2023 00:00");
    assert_eq!(hour_key("08/01/2023", 9), "08/01/2023 09:00");
    assert_eq!(hour_key("08/01/2023", 23), "08/01/2023 23:00");
    assert_eq!(hour_key("08/01/2023", -1), "08/01/2023 0-1:00");
    assert_eq!(minute_key("2023-08-01T05:00:00").unwrap(), "08/01/2023 05:00");
    assert!(minute_key("2023-08-01 05:00").is_none());
}

#[test]
fn records_keyed_by_hour() {
    let resp = ElSpotPricesResponse {
        total: 2,
        filters: String::new(),
        sort: "HourUTC".to_string(),
        limit: 0,
        dataset: "Elspotprices".to_string(),
        records: vec![record("2023-08-01T00:00:00", 1), record("2023-08-01T13:00:00", 2), record("2023-08-01T00:00:00", 3)],
    };
    let m = resp.into_records_as_map().unwrap();
    assert_eq!(m.len(), 2);
    assert_eq!(m.get(&"08/01/2023 00:00".to_string()).unwrap().spot_price_eur, 3);
    assert_eq!(m.get(&"08/01/2023 13:00".to_string()).unwrap().spot_price_eur, 2);
    let bad = ElSpotPricesResponse {
        total: 1,
        filters: String::new(),
        sort: String::new(),
        limit: 0,
        dataset: String::new(),
        records: vec![record("garbage", 1)],
    };
    assert!(bad.into_records_as_map().is_none());
}

#[test]
fn kwh_prices_truncate() {
    let r = record("2023-08-01T00:00:00", 95_431_999);
    assert_eq!(r.as_kwh_price_eur(), 95_431);
    assert_eq!(record("x", -1_999).as_kwh_price_eur(), -1);
    assert_eq!(r.as_kwh_price_dkk(), 668_023);
}

#[test]
fn decimal_text() {
    assert_eq!(parse_decimal("500"), Some(500_000_000));
    assert_eq!(parse_decimal("0.0"), Some(0));
    assert_eq!(parse_decimal("50.555"), Some(50_555_000));
    assert_eq!(parse_decimal("-1.5"), Some(-1_500_000));
    assert_eq!(parse_decimal("+0.000001"), Some(1));
    assert_eq!(parse_decimal("1.1234567"), None);
    assert_eq!(parse_decimal(""), None);
    assert_eq!(parse_decimal(".5"), None);
    assert_eq!(parse_decimal("5."), None);
    assert_eq!(parse_decimal("1.2.3"), None);
    assert_eq!(parse_decimal("9223372036854.775807"), Some(i64::MAX));
    assert_eq!(parse_decimal("-9223372036854.775808"), Some(i64::MIN));
    assert_eq!(parse_decimal("9223372036854.775808"), None);
    assert_eq!(parse_decimal("9223372036855"), None);
}

#[test]
fn integer_text() {
    assert_eq!(parse_i32("1"), Some(1));
    assert_eq!(parse_i32("+24"), Some(24));
    assert_eq!(parse_i32("-2147483648"), Some(i32::MIN));
    assert_eq!(parse_i32("2147483647"), Some(i32::MAX));
    assert_eq!(parse_i32("2147483648"), None);
    assert_eq!(parse_i32("-"), None);
    assert_eq!(parse_i32(""), None);
    assert_eq!(parse_i32("1 "), None);
    assert_eq!(parse_i32("٣"), None);
}

#[test]
fn daily_keys_sort_as_text_not_by_date() {
    let mut ts = series("2023-01-01T00:00:00Z", vec![point("1", "1")]);
    ts.period.push(Period {
        resolution: "PT1H".to_string(),
        time_interval: TimeInterval { start: "2022-12-31T00:00:00Z".to_string(), end: "2022-12-31T12:00:00Z".to_string() },
        point: vec![point("1", "2")],
    });
    let prices = KeyedStore::new();
    let u = UsageTimeSeries::new_daily(&vec![ts], &prices, &charge).unwrap();
    let keys: Vec<&str> = u.data.entries.iter().map(|e| e.0.as_str()).collect();
    assert_eq!(keys, vec!["01/01/2023", "12/31/2022"]);
}

#[test]
fn later_point_wins_on_equal_keys() {
    let ts = series("2023-08-02T00:00:00Z", vec![point("1", "1"), point("1", "7")]);
    let prices = KeyedStore::new();
    let u = UsageTimeSeries::new_hourly(&vec![ts], &prices, &charge).unwrap();
    assert_eq!(u.data.len(), 1);
    assert_eq!(u.data.get(&"08/02/2023 00:00".to_string()).unwrap().wh, 7_000_000);
}

#[test]
fn record_hour_as_instant() {
    let t = record("2023-08-01T13:00:00", 1).hour_utc_to_datetime().unwrap();
    assert_eq!((t.year, t.month, t.day, t.hour, t.minute), (2023, 8, 1, 13, 0));
    assert!(record("2023-08-01", 1).hour_utc_to_datetime().is_none());
    assert_eq!(record("2023-08-01T13:00:00", 1).hour_utc_key().unwrap(), "08/01/2023 13:00");
}
