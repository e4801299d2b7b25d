use enclave_hello::config::resolve_addr;

#[test]
fn set_port_variable_binds_on_that_port() {
    let addr = resolve_addr(Some("8080"));
    assert_eq!(addr.host, (0, 0, 0, 0));
    assert_eq!(addr.port, 8080);
}

#[test]
fn unset_port_variable_binds_on_the_default_port() {
    let addr = resolve_addr(None);
    assert_eq!(addr.host, (0, 0, 0, 0));
    assert_eq!(addr.port, 3000);
}

#[test]
fn non_numeric_port_variable_binds_on_the_default_port() {
    let addr = resolve_addr(Some("abc"));
    assert_eq!(addr.host, (0, 0, 0, 0));
    assert_eq!(addr.port, 3000);
}
