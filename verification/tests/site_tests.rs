use edgesite::site::health_body;
use edgesite::site::home_reply;
use edgesite::site::version_of;

#[test]
fn test_version_endpoint() {
    let reported = version_of(Some(String::from("v1.2.3")));
    assert_eq!(reported.version, "v1.2.3");
}

#[test]
fn test_version_defaults_to_unknown() {
    let reported = version_of(None);
    assert_eq!(reported.version, "unknown");
}

#[test]
fn test_healthz_endpoint() {
    assert_eq!(health_body(), "ok");
}

#[test]
fn test_root_handler() {
    let page = String::from("<!DOCTYPE html><html><body>home</body></html>");
    let reply = home_reply(Some(page.clone()));
    assert_eq!(reply.status, 200);
    assert_eq!(
        reply.content_type, "text/html; charset=utf-8",
        "Root endpoint should return HTML content type"
    );
    assert!(reply.body.starts_with("<!DOCTYPE html>"));
    assert_eq!(reply.body, page);
}

#[test]
fn test_root_handler_unreadable_page() {
    let reply = home_reply(None);
    assert_eq!(reply.status, 500);
    assert_eq!(reply.body, "Failed to load static content");
}
