use server::config::Config;
use server::response::u16_to_dec;
use server::routes::{health, not_found_handler};

#[test]
fn health_answers_ok() {
    let (status, body) = health();
    assert_eq!(status, 200);
    assert_eq!(body, "ok");
}

#[test]
fn health_is_stateless() {
    for _ in 0..100 {
        assert_eq!(health(), (200, "ok"));
    }
}

#[test]
fn unmatched_path_is_not_found() {
    let r = not_found_handler().into_response();
    assert_eq!(r.status, 404);
    let v: serde_json::Value = serde_json::from_str(&r.body).unwrap();
    assert_eq!(v.get("title").unwrap().as_str().unwrap(), "Not Found");
    assert_eq!(v.get("status").unwrap().as_u64().unwrap(), 404);
}

#[test]
fn decimal_rendering_is_exact() {
    assert_eq!(u16_to_dec(0), "0");
    assert_eq!(u16_to_dec(7), "7");
    assert_eq!(u16_to_dec(404), "404");
    assert_eq!(u16_to_dec(422), "422");
    assert_eq!(u16_to_dec(65535), "65535");
}

#[test]
fn config_keeps_its_fields() {
    let c = Config::new(
        "postgres://localhost/app".to_string(),
        8080,
        "127.0.0.1".to_string(),
    );
    assert_eq!(c.database_url, "postgres://localhost/app");
    assert_eq!(c.port, 8080);
    assert_eq!(c.address, "127.0.0.1");
}
