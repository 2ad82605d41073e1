use nros::bench::chrono_like_timestamp;
use nros::probe::Rng;
use nros::sim::{camera_gradient_frame, EntityId};
use nros::studio::{param_request, request_target, route, url_decode, DemoDataProvider, LiveNrosDataProvider, Route};
use nros::text::{replace_str, to_decimal};

#[test]
fn text_decimal_rendering() {
    assert_eq!(to_decimal(0), "0");
    assert_eq!(to_decimal(7), "7");
    assert_eq!(to_decimal(1234567890), "1234567890");
    assert_eq!(to_decimal(u64::MAX), "18446744073709551615");
}

#[test]
fn text_replace_all_occurrences() {
    assert_eq!(replace_str("a%20b%20c", "%20", " "), "a b c");
    assert_eq!(replace_str("aaa", "aa", "b"), "ba");
    assert_eq!(replace_str("none", "x", "y"), "none");
    assert_eq!(replace_str("", "x", "y"), "");
}

#[test]
fn studio_url_decode() {
    assert_eq!(url_decode("max%20speed+now"), "max speed now");
    assert_eq!(url_decode("plain"), "plain");
    assert_eq!(url_decode("%2"), "%2");
}

#[test]
fn studio_providers() {
    assert!(DemoDataProvider.is_simulated());
    assert!(DemoDataProvider.name().starts_with("DemoDataProvider"));
    let live = LiveNrosDataProvider::new();
    assert!(!live.is_simulated());
    assert!(live.name().starts_with("LiveNrosDataProvider"));
}

#[test]
fn probe_rng_is_xorshift_star() {
    let mut rng = Rng(1);
    let mut x: u64 = 1;
    x ^= x >> 12;
    x ^= x << 25;
    x ^= x >> 27;
    assert_eq!(rng.next(), x.wrapping_mul(0x2545F4914F6CDD1D));
    assert_eq!(rng.0, x);
    let mut a = Rng(0x9E3779B97F4A7C15);
    let mut b = Rng(0x9E3779B97F4A7C15);
    for _ in 0..100 {
        assert_eq!(a.byte(), b.byte());
        let n = a.below(7);
        assert_eq!(n, b.below(7));
        assert!(n < 7);
    }
}

#[test]
fn bench_timestamp_is_decimal_seconds() {
    let s = chrono_like_timestamp();
    assert!(!s.is_empty());
    assert!(s.chars().all(|c| c.is_ascii_digit()));
    assert!(s.parse::<u64>().unwrap() > 1_600_000_000);
}

#[test]
fn sim_camera_frame_gradient() {
    let one = camera_gradient_frame(1, 1);
    assert_eq!(one, vec![0, 0, 128]);
    let f = camera_gradient_frame(2, 2);
    assert_eq!(f, vec![0, 0, 128, 127, 0, 128, 0, 127, 128, 127, 127, 128]);
    assert!(camera_gradient_frame(u32::MAX, u32::MAX).is_empty());
    assert_eq!(EntityId(3), EntityId(3));
}

#[test]
fn studio_request_decoding() {
    let req = "POST /api/params?node=base&value=1%202 HTTP/1.1\r\nHost: x\r\n\r\nkey=max_speed&value=9";
    let (method, path) = request_target(req);
    assert_eq!((method.as_str(), path.as_str()), ("POST", "/api/params?node=base&value=1%202"));
    assert_eq!(route(&method, &path), Route::Params);
    let (node, key, value) = param_request(req, &path);
    assert_eq!((node.as_str(), key.as_str(), value.as_str()), ("base", "max_speed", "1 2"));
    assert_eq!(request_target(""), ("GET".to_string(), "/".to_string()));
    assert_eq!(route("GET", "/index.html?x=1"), Route::Index);
    assert_eq!(route("GET", "/api/tf"), Route::Tf);
    assert_eq!(route("DELETE", "/api/params"), Route::NotFound);
    assert_eq!(route("GET", "/missing"), Route::NotFound);
    let (n, k, v) = param_request("GET /api/params HTTP/1.1\r\n\r\n", "/api/params");
    assert_eq!((n.as_str(), k.as_str(), v.as_str()), ("velocity_controller", "max_speed", "2.0"));
}
