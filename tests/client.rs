use eloverblik::cache::{CString, InMemoryCache};
use eloverblik::client::{bearer, cache_key, cached_token, check_response, plan_token, store_token, TokenPlan};
use eloverblik::error::Error;
use eloverblik::export::{get_trace_level, level_of_upper, LogLevel};
use eloverblik::request::ElSpotPricesRequest;

#[test]
fn rate_limited_statuses() {
    let r = check_response("body", 429, 1000);
    assert!(matches!(r, Err(Error::RateLimited(1061))));
    let r = check_response("body", 503, 1000);
    assert!(matches!(r, Err(Error::RateLimited(1061))));
    let r = check_response("body", 429, i64::MAX - 1);
    assert!(matches!(r, Err(Error::RateLimited(i64::MAX))));
}

#[test]
fn other_statuses_pass_through() {
    assert!(matches!(check_response("ok", 200, 5), Ok("ok")));
    assert!(matches!(check_response("missing", 404, 5), Ok("missing")));
    assert!(matches!(check_response("err", 500, 5), Ok("err")));
}

#[test]
fn no_cache_always_exchanges() {
    assert_eq!(plan_token(false, true), TokenPlan::Exchange { store: false });
    assert_eq!(plan_token(false, false), TokenPlan::Exchange { store: false });
    assert_eq!(plan_token(true, true), TokenPlan::Exchange { store: true });
    assert_eq!(plan_token(true, false), TokenPlan::Reuse);
}

#[test]
fn cached_token_is_reused_until_expiry() {
    let mut cache: InMemoryCache<CString> = InMemoryCache::new(3600);
    assert!(cached_token(&cache, 100).is_none());
    store_token(&mut cache, "tok-1".to_string(), 100);
    assert_eq!(cached_token(&cache, 100).unwrap(), "tok-1");
    assert_eq!(cached_token(&cache, 3700).unwrap(), "tok-1");
    assert!(cached_token(&cache, 3701).is_none());
    assert_eq!(cache_key(), "ACCESS_TOKEN");
}

#[test]
fn bearer_header() {
    assert_eq!(bearer("abc"), "Bearer abc");
}

#[test]
fn spot_price_query_tuples() {
    let req = ElSpotPricesRequest {
        limit: Some(0),
        timezone: Some("UTC".to_string()),
        start: None,
        end: Some("2023-08-31".to_string()),
        filter: None,
        sort: Some("HourUTC".to_string()),
    };
    let t = req.tuples();
    assert_eq!(
        t,
        vec![
            ("limit".to_string(), "0".to_string()),
            ("timezone".to_string(), "UTC".to_string()),
            ("end".to_string(), "2023-08-31".to_string()),
            ("sort".to_string(), "HourUTC".to_string()),
        ]
    );
    let empty = ElSpotPricesRequest { limit: Some(-25), timezone: None, start: None, end: None, filter: None, sort: None };
    assert_eq!(empty.tuples(), vec![("limit".to_string(), "-25".to_string())]);
}

#[test]
fn trace_levels() {
    assert_eq!(get_trace_level("info"), Some(LogLevel::Info));
    assert_eq!(get_trace_level("Trace"), Some(LogLevel::Trace));
    assert_eq!(get_trace_level("ERROR"), Some(LogLevel::Error));
    assert_eq!(get_trace_level("verbose"), None);
    assert_eq!(level_of_upper(&"WARN".to_string()), Some(LogLevel::Warn));
    assert_eq!(level_of_upper(&"warn".to_string()), None);
}
