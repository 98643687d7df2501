use kiro_rs::cache_sim::{detect_cache_ttl, simulate, split, CacheShares, CacheTtl, CacheUsage};
use kiro_rs::json::{Json, JsonObject};

struct CacheSimSettings {
    enabled: bool,
    creation_ratio: f64,
    hit_ratio: f64,
    cacheable_ratio: f64,
}

fn enabled(creation: f64, hit: f64, cacheable: f64) -> CacheSimSettings {
    CacheSimSettings {
        enabled: true,
        creation_ratio: creation,
        hit_ratio: hit,
        cacheable_ratio: cacheable,
    }
}

/// What the ratios ask for a request of `total` tokens.
fn shares(s: &CacheSimSettings, total: i32) -> CacheShares {
    let cap = (total - 1) as f64;
    let base = (total as f64 * s.cacheable_ratio).round().min(cap);
    let mut creation = (base * s.creation_ratio).round();
    let mut read = (base * s.hit_ratio).round();
    if creation + read > base {
        let sum = creation + read;
        if sum > 0.0 {
            creation = (creation / sum * base).round();
            read = (read / sum * base).round();
        }
    }
    CacheShares {
        enabled: s.enabled,
        base: base as i32,
        creation: creation as i32,
        read: read as i32,
    }
}

fn simulated(s: &CacheSimSettings, ttl: CacheTtl, total: i32) -> Option<CacheUsage> {
    let wanted = shares(s, total);
    assert!(wanted.fit(total));
    simulate(&wanted, ttl, total)
}

fn int_at(v: &Json, path: &[&str]) -> i64 {
    let mut at = v;
    for key in path {
        at = at.get(key).unwrap();
    }
    match at {
        Json::Int(n) => *n,
        _ => panic!("no number at {:?}", path),
    }
}

#[test]
fn test_disabled_returns_none() {
    let s = CacheSimSettings {
        enabled: false,
        creation_ratio: 0.25,
        hit_ratio: 0.70,
        cacheable_ratio: 1.0,
    };
    assert!(simulated(&s, CacheTtl::FiveMin, 1000).is_none());
}

#[test]
fn test_zero_total_returns_none() {
    let s = enabled(0.2, 0.7, 1.0);
    assert!(simulated(&s, CacheTtl::FiveMin, 0).is_none());
}

#[test]
fn test_basic_split() {
    let s = enabled(0.2, 0.7, 1.0);
    let u = simulated(&s, CacheTtl::FiveMin, 1000).unwrap();
    assert_eq!(u.cache_creation_input_tokens, 200);
    assert_eq!(u.cache_read_input_tokens, 699);
    assert_eq!(u.input_tokens, 101);
    assert!(u.input_tokens >= 1, "input_tokens 必须恒 >= 1");
    assert_eq!(
        u.input_tokens + u.cache_creation_input_tokens + u.cache_read_input_tokens,
        1000
    );
}

#[test]
fn test_input_tokens_never_zero_even_at_full_ratio() {
    let s = enabled(0.5, 0.5, 1.0);
    for total in [1, 2, 10, 100, 1000, 100_000] {
        let u = simulated(&s, CacheTtl::FiveMin, total).unwrap();
        assert!(
            u.input_tokens >= 1,
            "total={total} 时 input_tokens={} 不应小于 1",
            u.input_tokens
        );
        assert_eq!(
            u.input_tokens + u.cache_creation_input_tokens + u.cache_read_input_tokens,
            total
        );
    }
}

#[test]
fn test_total_one_all_input_no_cache() {
    let s = enabled(0.5, 0.5, 1.0);
    let u = simulated(&s, CacheTtl::FiveMin, 1).unwrap();
    assert_eq!(u.input_tokens, 1);
    assert_eq!(u.cache_creation_input_tokens, 0);
    assert_eq!(u.cache_read_input_tokens, 0);
}

#[test]
fn test_cacheable_ratio_caps_base() {
    let s = enabled(0.2, 0.7, 0.5);
    let u = simulated(&s, CacheTtl::FiveMin, 1000).unwrap();
    assert_eq!(u.cache_creation_input_tokens, 100);
    assert_eq!(u.cache_read_input_tokens, 350);
    assert_eq!(u.input_tokens, 550);
}

#[test]
fn test_ratios_exceeding_one_are_scaled_to_base() {
    let s = enabled(0.6, 0.9, 1.0);
    let u = simulated(&s, CacheTtl::FiveMin, 1000).unwrap();
    assert!(u.input_tokens >= 1);
    assert!(
        u.cache_creation_input_tokens + u.cache_read_input_tokens <= 999,
        "creation+read 不得超过 total - 1"
    );
}

#[test]
fn test_ttl_buckets() {
    let s = enabled(0.2, 0.7, 1.0);
    let mut usage = Json::Object(JsonObject::new().with("output_tokens", Json::Int(5)));
    simulated(&s, CacheTtl::OneHour, 1000).unwrap().apply_to_usage(&mut usage);
    assert_eq!(int_at(&usage, &["cache_creation", "ephemeral_1h_input_tokens"]), 200);
    assert_eq!(int_at(&usage, &["cache_creation", "ephemeral_5m_input_tokens"]), 0);
    assert_eq!(int_at(&usage, &["input_tokens"]), 101);
    assert_eq!(int_at(&usage, &["cache_read_input_tokens"]), 699);
    assert_eq!(int_at(&usage, &["output_tokens"]), 5);

    let mut usage5 = Json::Object(JsonObject::new());
    simulated(&s, CacheTtl::FiveMin, 1000).unwrap().apply_to_usage(&mut usage5);
    assert_eq!(int_at(&usage5, &["cache_creation", "ephemeral_5m_input_tokens"]), 200);
    assert_eq!(int_at(&usage5, &["cache_creation", "ephemeral_1h_input_tokens"]), 0);
}

fn ephemeral(ttl: Option<&str>) -> Json {
    let control = JsonObject::new().with("type", Json::text("ephemeral"));
    Json::Object(match ttl {
        Some(ttl) => control.with("ttl", Json::text(ttl)),
        None => control,
    })
}

#[test]
fn test_detect_cache_ttl_none() {
    let message =
        JsonObject::new().with("role", Json::text("user")).with("content", Json::text("hi"));
    let v = Json::Object(
        JsonObject::new()
            .with("model", Json::text("x"))
            .with("messages", Json::Array(vec![Json::Object(message)])),
    );
    assert_eq!(detect_cache_ttl(&v), None);
}

#[test]
fn test_detect_cache_ttl_in_system_default_5m() {
    let block = JsonObject::new()
        .with("type", Json::text("text"))
        .with("text", Json::text("..."))
        .with("cache_control", ephemeral(None));
    let v = Json::Object(
        JsonObject::new()
            .with("system", Json::Array(vec![Json::Object(block)]))
            .with("messages", Json::Array(vec![])),
    );
    assert_eq!(detect_cache_ttl(&v), Some(CacheTtl::FiveMin));
}

#[test]
fn test_detect_cache_ttl_1h_wins() {
    let block = JsonObject::new()
        .with("type", Json::text("text"))
        .with("cache_control", ephemeral(None));
    let tool = JsonObject::new()
        .with("name", Json::text("t"))
        .with("cache_control", ephemeral(Some("1h")));
    let v = Json::Object(
        JsonObject::new()
            .with("system", Json::Array(vec![Json::Object(block)]))
            .with("tools", Json::Array(vec![Json::Object(tool)])),
    );
    assert_eq!(detect_cache_ttl(&v), Some(CacheTtl::OneHour));
}

#[test]
fn test_detect_cache_ttl_in_messages() {
    let block = JsonObject::new()
        .with("type", Json::text("text"))
        .with("text", Json::text("big ctx"))
        .with("cache_control", ephemeral(None));
    let message = JsonObject::new()
        .with("role", Json::text("user"))
        .with("content", Json::Array(vec![Json::Object(block)]));
    let v =
        Json::Object(JsonObject::new().with("messages", Json::Array(vec![Json::Object(message)])));
    assert_eq!(detect_cache_ttl(&v), Some(CacheTtl::FiveMin));
}

#[test]
fn a_lifetime_that_is_not_one_hour_counts_as_five_minutes() {
    let five = Json::Object(JsonObject::new().with("cache_control", ephemeral(Some("5m"))));
    assert_eq!(detect_cache_ttl(&five), Some(CacheTtl::FiveMin));
    let null = Json::Object(JsonObject::new().with("cache_control", Json::Null));
    assert_eq!(detect_cache_ttl(&null), Some(CacheTtl::FiveMin));
    let number = JsonObject::new().with("ttl", Json::Int(1));
    let odd = Json::Object(JsonObject::new().with("cache_control", Json::Object(number)));
    assert_eq!(detect_cache_ttl(&odd), Some(CacheTtl::FiveMin));
}

#[test]
fn a_breakpoint_is_found_inside_a_breakpoint() {
    let inner = JsonObject::new().with("cache_control", ephemeral(Some("1h")));
    let v = Json::Object(JsonObject::new().with("cache_control", Json::Object(inner)));
    assert_eq!(detect_cache_ttl(&v), Some(CacheTtl::OneHour));
    assert_eq!(detect_cache_ttl(&Json::Null), None);
    assert_eq!(detect_cache_ttl(&Json::text("cache_control")), None);
}

#[test]
fn shares_that_leave_a_token_stay_as_they_are() {
    let wanted = CacheShares { enabled: true, base: i32::MAX, creation: 20, read: 79 };
    let u = simulate(&wanted, CacheTtl::OneHour, 100).unwrap();
    assert_eq!(u.input_tokens, 1);
    assert_eq!(u.cache_creation_input_tokens, 20);
    assert_eq!(u.cache_read_input_tokens, 79);
    assert_eq!(u.ttl, CacheTtl::OneHour);
}

#[test]
fn shares_that_are_too_large_are_cut() {
    let wanted = CacheShares { enabled: true, base: i32::MAX, creation: 500, read: 500 };
    assert!(wanted.fit(100));
    let u = simulate(&wanted, CacheTtl::FiveMin, 100).unwrap();
    assert_eq!((u.input_tokens, u.cache_creation_input_tokens, u.cache_read_input_tokens), (1, 99, 0));
    let wanted = CacheShares { enabled: true, base: i32::MAX, creation: 40, read: 80 };
    let u = simulate(&wanted, CacheTtl::FiveMin, 100).unwrap();
    assert_eq!((u.input_tokens, u.cache_creation_input_tokens, u.cache_read_input_tokens), (1, 40, 59));
}

#[test]
fn what_is_cached_stays_within_the_base() {
    // Both shares are rounded up from a half.
    let s = enabled(0.5, 0.5, 0.4);
    let wanted = shares(&s, 3);
    assert_eq!((wanted.base, wanted.creation, wanted.read), (1, 1, 1));
    let u = simulated(&s, CacheTtl::FiveMin, 3).unwrap();
    assert_eq!((u.input_tokens, u.cache_creation_input_tokens, u.cache_read_input_tokens), (2, 1, 0));

    for total in 2..200 {
        for tenths in 0..=10 {
            let s = enabled(0.5, 0.7, tenths as f64 / 10.0);
            let base = shares(&s, total).base;
            let u = simulated(&s, CacheTtl::FiveMin, total).unwrap();
            assert!(u.cache_creation_input_tokens + u.cache_read_input_tokens <= base);
            assert!(u.input_tokens >= total - base);
        }
    }
}

#[test]
fn ratios_beyond_their_range() {
    let s = enabled(2.0, -0.5, 0.5);
    let wanted = shares(&s, 1000);
    assert_eq!((wanted.base, wanted.creation, wanted.read), (500, 667, -167));
    let u = simulated(&s, CacheTtl::FiveMin, 1000).unwrap();
    assert_eq!(
        (u.input_tokens, u.cache_creation_input_tokens, u.cache_read_input_tokens),
        (500, 667, -167)
    );
}

#[test]
fn a_base_bounds_the_shares() {
    let at = |base: i32, creation: i32, read: i32| {
        let wanted = CacheShares { enabled: true, base, creation, read };
        let u = simulate(&wanted, CacheTtl::FiveMin, 100).unwrap();
        (u.input_tokens, u.cache_creation_input_tokens, u.cache_read_input_tokens)
    };
    assert_eq!(at(0, 5, 5), (100, 0, 0));
    assert_eq!(at(10, 20, 5), (90, 10, 0));
    assert_eq!(at(10, 5, 20), (90, 5, 5));
    assert_eq!(at(10, 4, 6), (90, 4, 6));
    assert_eq!(at(200, 60, 60), (1, 60, 39));
    assert_eq!(at(-1, 60, 60), (1, 60, 39));
    // A share below zero makes room for the other one.
    assert_eq!(at(50, 67, -17), (50, 67, -17));
    assert_eq!(at(50, 68, -17), (50, 67, -17));
    assert_eq!(at(50, 500, -60), (61, 99, -60));
    assert_eq!(at(50, -17, 70), (50, -17, 67));
}

#[test]
fn shares_out_of_range_do_not_fit() {
    let wide = CacheShares { enabled: true, base: i32::MAX, creation: i32::MIN, read: 0 };
    assert!(!wide.fit(100));
    assert!(wide.fit(1));
    assert!(CacheShares { enabled: false, ..wide }.fit(100));
    let sum = CacheShares { enabled: true, base: i32::MAX, creation: i32::MAX, read: i32::MAX };
    assert!(!sum.fit(i32::MAX));
    assert!(!sum.fit(3));
}

#[test]
fn no_context_gives_no_split() {
    assert!(split(&None, 1000).is_none());
    let off = CacheShares { enabled: false, base: 9, creation: 1, read: 1 };
    assert!(split(&Some((off, CacheTtl::FiveMin)), 1000).is_none());
    let on = CacheShares { enabled: true, base: 9, creation: 1, read: 1 };
    assert!(split(&Some((on, CacheTtl::FiveMin)), -5).is_none());
    assert_eq!(split(&Some((on, CacheTtl::FiveMin)), 10).unwrap().input_tokens, 8);
}

#[test]
fn what_is_no_object_is_left_alone() {
    let u = CacheUsage {
        input_tokens: 1,
        cache_creation_input_tokens: 2,
        cache_read_input_tokens: 3,
        ttl: CacheTtl::FiveMin,
    };
    let mut list = Json::Array(vec![]);
    u.apply_to_usage(&mut list);
    assert_eq!(list.as_array().unwrap().len(), 0);
    let mut text = Json::text("usage");
    u.apply_to_usage(&mut text);
    assert_eq!(text.as_str(), Some("usage"));
}

#[test]
fn cache_fields_replace_the_ones_before() {
    let u = CacheUsage {
        input_tokens: 1,
        cache_creation_input_tokens: 2,
        cache_read_input_tokens: 3,
        ttl: CacheTtl::FiveMin,
    };
    let mut usage = Json::Object(
        JsonObject::new()
            .with("input_tokens", Json::Int(6))
            .with("cache_creation_input_tokens", Json::Int(0))
            .with("service_tier", Json::text("standard")),
    );
    u.apply_to_usage(&mut usage);
    u.apply_to_usage(&mut usage);
    assert_eq!(int_at(&usage, &["input_tokens"]), 1);
    assert_eq!(int_at(&usage, &["cache_creation_input_tokens"]), 2);
    assert_eq!(int_at(&usage, &["cache_read_input_tokens"]), 3);
    assert_eq!(usage.get("service_tier").unwrap().as_str(), Some("standard"));
    match &usage {
        Json::Object(o) => assert_eq!(o.len(), 5),
        _ => panic!("no object"),
    }
}
