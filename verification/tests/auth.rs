use osauth::auth::NoAuth;
use osauth::{ErrorKind, Url};

fn parsed(auth: &NoAuth) -> reqwest::Url {
    let endpoint = auth.get_endpoint(String::from("any"), None);
    reqwest::Url::parse(endpoint.as_str()).unwrap()
}

#[test]
fn test_noauth_new() {
    let a = NoAuth::new("http://127.0.0.1:8080/v1").unwrap();
    let e = parsed(&a);
    assert_eq!(e.scheme(), "http");
    assert_eq!(e.host_str().unwrap(), "127.0.0.1");
    assert_eq!(e.port().unwrap(), 8080u16);
    assert_eq!(e.path(), "/v1");
}

#[test]
fn test_noauth_new_fail() {
    let _ = NoAuth::new("foo bar").err().unwrap();
}

#[test]
fn test_noauth_get_endpoint() {
    let a = NoAuth::new("http://127.0.0.1:8080/v1").unwrap();
    let e = a.get_endpoint(String::from("foobar"), None);
    let e = reqwest::Url::parse(e.as_str()).unwrap();
    assert_eq!(e.scheme(), "http");
    assert_eq!(e.host_str().unwrap(), "127.0.0.1");
    assert_eq!(e.port().unwrap(), 8080u16);
    assert_eq!(e.path(), "/v1");
}

#[test]
fn noauth_new_fails_with_invalid_endpoint() {
    let error = NoAuth::new("foo bar").err().unwrap();
    assert_eq!(error.kind(), ErrorKind::InvalidEndpoint);
    assert_eq!(error.message(), "the endpoint is not a valid URL");
}

#[test]
fn noauth_answers_the_same_endpoint_for_every_service() {
    let a = NoAuth::new("http://127.0.0.1:8080/v1").unwrap();
    let compute = a.get_endpoint(String::from("compute"), None).clone();
    let image = a
        .get_endpoint(String::from("image"), Some(String::from("internal")))
        .clone();
    assert_eq!(compute, image);
    assert_eq!(compute.as_str(), "http://127.0.0.1:8080/v1");
}

#[test]
fn noauth_has_no_region() {
    let a = NoAuth::new("http://127.0.0.1:8080/v1").unwrap();
    assert!(a.region().is_none());
}

#[test]
fn noauth_from_endpoint_keeps_the_outcome() {
    let good = NoAuth::from_endpoint(Url::parse("http://127.0.0.1/"));
    assert_eq!(
        good.unwrap()
            .get_endpoint(String::from("x"), None)
            .as_str(),
        "http://127.0.0.1/"
    );
    let bad = NoAuth::from_endpoint(Url::parse("::"));
    assert_eq!(bad.err().unwrap().kind(), ErrorKind::InvalidEndpoint);
}
