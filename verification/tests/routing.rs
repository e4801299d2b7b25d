use enclave_hello::routes::{dispatch, hello_handler, route_path};

const HELLO: &str = "Hello from the enclave HTTP server!";

#[test]
fn handler_returns_the_exact_greeting() {
    assert_eq!(hello_handler(), HELLO);
}

#[test]
fn route_path_is_the_hello_path() {
    assert_eq!(route_path(), "/api/hello");
}

#[test]
fn get_hello_is_answered_with_200_and_the_full_body() {
    let resp = dispatch("GET", "/api/hello").expect("the hello route must be answered");
    assert_eq!(resp.status, 200);
    assert_eq!(resp.body, HELLO);
}

#[test]
fn other_paths_are_not_answered() {
    assert!(dispatch("GET", "/api/other").is_none());
    assert!(dispatch("GET", "/").is_none());
    assert!(dispatch("GET", "/api/hello/").is_none());
    assert!(dispatch("GET", "/API/HELLO").is_none());
    assert!(dispatch("GET", "").is_none());
}

#[test]
fn other_methods_on_the_hello_path_are_not_answered() {
    assert!(dispatch("POST", "/api/hello").is_none());
    assert!(dispatch("PUT", "/api/hello").is_none());
    assert!(dispatch("DELETE", "/api/hello").is_none());
    assert!(dispatch("HEAD", "/api/hello").is_none());
    assert!(dispatch("get", "/api/hello").is_none());
}

#[test]
fn two_requests_each_receive_the_full_response() {
    let first = dispatch("GET", "/api/hello").expect("first request must be answered");
    let second = dispatch("GET", "/api/hello").expect("second request must be answered");
    assert_eq!(first.status, 200);
    assert_eq!(second.status, 200);
    assert_eq!(first.body, HELLO);
    assert_eq!(second.body, HELLO);
    assert_eq!(first.body, second.body);
}
