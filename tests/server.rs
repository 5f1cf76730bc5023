use pet_monitor_app::context::{Context, TlsConfig};
use pet_monitor_app::server::{launch_plan, RouteSet};

#[test]
fn plan_with_tls_has_redirect_and_encrypted_listeners() {
    let tls = TlsConfig { port: 443, cert: "c.pem".to_string(), key: "k.pem".to_string() };
    let ctx = Context { host: Some([127, 0, 0, 1]), port: 8080, tls: Some(tls.clone()), ..Default::default() };
    let plan = launch_plan(&ctx);
    assert_eq!(plan.len(), 2);
    assert_eq!(plan[0].routes, RouteSet::RedirectOnly);
    assert_eq!(plan[0].port, 8080);
    assert_eq!(plan[0].tls, None);
    assert_eq!(plan[0].address, [127, 0, 0, 1]);
    assert_eq!(plan[1].routes, RouteSet::Full);
    assert_eq!(plan[1].port, 443);
    assert_eq!(plan[1].tls, Some(tls));
    assert_eq!(plan[1].address, [127, 0, 0, 1]);
}

#[test]
fn plan_without_tls_serves_everything_in_plaintext() {
    let ctx = Context { port: 8080, ..Default::default() };
    let plan = launch_plan(&ctx);
    assert_eq!(plan.len(), 1);
    assert_eq!(plan[0].routes, RouteSet::Full);
    assert_eq!(plan[0].port, 8080);
    assert_eq!(plan[0].tls, None);
    assert_eq!(plan[0].address, [0, 0, 0, 0]);
}
