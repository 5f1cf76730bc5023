use pet_monitor_app::context::{Config, Context, Provider};
use pet_monitor_app::routes::{get_config, login, put_config, stream, CacheControl, RouteError};
use pet_monitor_app::secrets::init_password;
use pet_monitor_app::token::{decode_and_verify, Token};
use std::sync::Arc;

fn context_with_password(password: &str) -> Context {
    Context {
        password_hash: init_password(password).unwrap(),
        token_secret: [7u8; 32],
        ..Default::default()
    }
}

#[test]
fn redirect() {
    let ctx = Context {
        domain: "localhost".to_string(),
        ..Default::default()
    };
    assert_eq!(
        pet_monitor_app::routes::redirect(Some(""), &ctx).unwrap(),
        "https://localhost/"
    );
    assert_eq!(
        pet_monitor_app::routes::redirect(Some("index.html"), &ctx).unwrap(),
        "https://localhost/index.html"
    );
}

#[test]
fn redirect_nested_path_and_domain() {
    let ctx = Context {
        domain: "cam.example.org".to_string(),
        ..Default::default()
    };
    assert_eq!(
        pet_monitor_app::routes::redirect(Some("a/b/c.js"), &ctx).unwrap(),
        "https://cam.example.org/a/b/c.js"
    );
}

#[test]
fn redirect_path_not_text() {
    let ctx = Context::default();
    let e = pet_monitor_app::routes::redirect(None, &ctx).unwrap_err();
    assert_eq!(e, RouteError::Internal);
    assert_eq!(e.status(), 500);
}

#[test]
fn login_valid() {
    let password = "foo";
    let ctx = context_with_password(password);
    let cookie = login(password, &ctx, 1000).unwrap();
    assert_eq!(cookie.max_age, ctx.token_timeout);
    let t = decode_and_verify(&cookie.value, &ctx.token_secret, 1000).unwrap();
    assert_eq!(t, Token { issued_at: 1000, expires_at: 1000 + ctx.token_timeout });
}

#[test]
fn login_invalid() {
    let password = "foo";
    let ctx = context_with_password(password);
    let e = login("bar", &ctx, 1000).unwrap_err();
    assert_eq!(e, RouteError::Unauthorized);
    assert_eq!(e.status(), 401);
}

#[test]
fn login_timeout_overflow_is_internal() {
    let mut ctx = context_with_password("foo");
    ctx.token_timeout = u64::MAX;
    assert_eq!(login("foo", &ctx, 1).unwrap_err(), RouteError::Internal);
}

#[test]
fn protected_routes_reject_missing_and_bad_cookies() {
    let ctx = context_with_password("pw");
    assert_eq!(get_config(None, &ctx, 5).unwrap_err(), RouteError::Unauthorized);
    assert_eq!(get_config(Some("garbage"), &ctx, 5).unwrap_err(), RouteError::Unauthorized);
    assert_eq!(stream(None, &ctx, 5).unwrap_err(), RouteError::Unauthorized);
    let other = Token::issue(5, 100).encode(&[1u8; 32]);
    assert_eq!(get_config(Some(&other), &ctx, 5).unwrap_err(), RouteError::Unauthorized);
}

#[test]
fn stream_headers_forbid_caching() {
    let ctx = context_with_password("pw");
    let cookie = login("pw", &ctx, 10).unwrap();
    let head = stream(Some(&cookie.value), &ctx, 11).unwrap();
    assert_eq!(head.config, ctx.config);
    assert_eq!(head.cache_control, CacheControl { max_age: Some(0), no_store: true });
    assert_eq!(head.cache_control.header_value(), "max-age=0, no-store");
}

#[test]
fn cache_control_header_values() {
    assert_eq!(CacheControl { max_age: Some(3600), no_store: false }.header_value(), "max-age=3600");
    assert_eq!(CacheControl { max_age: None, no_store: true }.header_value(), ", no-store");
    assert_eq!(CacheControl { max_age: None, no_store: false }.header_value(), "");
    assert_eq!(
        CacheControl { max_age: Some(u32::MAX), no_store: true }.header_value(),
        "max-age=4294967295, no-store"
    );
}

#[test]
fn put_config_without_cookie_keeps_config() {
    let provider = Provider::new(context_with_password("pw"));
    let now = 100;
    let cookie = login("pw", &provider.get(), now).unwrap();
    let baseline = get_config(Some(&cookie.value), &provider.get(), now).unwrap();
    let changed = Config { width: 1920, height: 1080, ..baseline.clone() };
    let r = put_config(None, &provider.get(), changed, now);
    assert_eq!(r.as_ref().unwrap_err().status(), 401);
    if let Ok(new_ctx) = r {
        provider.set(new_ctx);
    }
    let after = get_config(Some(&cookie.value), &provider.get(), now).unwrap();
    assert_eq!(after, baseline);
}

#[test]
fn login_then_update_config_then_expire() {
    let ctx = Context {
        password_hash: init_password("s3cret").unwrap(),
        token_secret: [42u8; 32],
        token_timeout: 60,
        ..Default::default()
    };
    let provider = Provider::new(ctx);
    let now = 1_700_000_000;
    let cookie = login("s3cret", &provider.get(), now).unwrap();
    assert_eq!(cookie.max_age, 60);
    let current = get_config(Some(&cookie.value), &provider.get(), now).unwrap();
    assert_eq!(current, Config::default());
    let modified = Config { rotation: 90, frame_rate: 15, ..current };
    let new_ctx = put_config(Some(&cookie.value), &provider.get(), modified.clone(), now + 1).unwrap();
    provider.set(new_ctx);
    assert_eq!(get_config(Some(&cookie.value), &provider.get(), now + 2).unwrap(), modified);
    assert_eq!(
        get_config(Some(&cookie.value), &provider.get(), now + 60).unwrap_err(),
        RouteError::Unauthorized
    );
}

fn tagged(tag: u32) -> Context {
    Context {
        config: Config {
            device: format!("/dev/video{}", tag),
            width: tag,
            height: tag,
            frame_rate: tag,
            rotation: tag,
        },
        domain: format!("d{}", tag),
        password_hash: format!("h{}", tag),
        token_secret: [5u8; 32],
        token_timeout: tag as u64,
        port: tag as u16,
        ..Default::default()
    }
}

fn consistent(c: &Context) -> bool {
    let t = c.config.width;
    c.config.device == format!("/dev/video{}", t)
        && c.config.height == t
        && c.config.frame_rate == t
        && c.config.rotation == t
        && c.domain == format!("d{}", t)
        && c.password_hash == format!("h{}", t)
        && c.token_secret == [5u8; 32]
        && c.token_timeout == t as u64
        && c.port == t as u16
}

#[test]
fn provider_keeps_its_secret() {
    let provider = Provider::new(tagged(3));
    assert_eq!(provider.token_secret(), [5u8; 32]);
    provider.set(tagged(4));
    assert_eq!(provider.get().token_secret, [5u8; 32]);
    assert_eq!(provider.get().domain, "d4");
}

#[test]
fn provider_reads_are_never_torn() {
    let provider = Arc::new(Provider::new(tagged(0)));
    let rt = tokio::runtime::Builder::new_multi_thread().worker_threads(4).build().unwrap();
    rt.block_on(async {
        let mut tasks = Vec::new();
        for w in 0..2u32 {
            let p = provider.clone();
            tasks.push(tokio::task::spawn_blocking(move || {
                for i in 0..2000u32 {
                    p.set(tagged(1 + (i * 2 + w) % 200));
                }
                true
            }));
        }
        for _ in 0..2 {
            let p = provider.clone();
            tasks.push(tokio::task::spawn_blocking(move || {
                (0..4000).all(|_| consistent(&p.get()))
            }));
        }
        for t in tasks {
            assert!(t.await.unwrap());
        }
    });
    assert!(consistent(&provider.get()));
}
