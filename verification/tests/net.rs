use gosh_agent::plugin::net::{
    check_local_mcp_bind, client_host_for_local, is_local_mcp_compatible_bind,
};

#[test]
fn ipv4_unspecified_rewrites_to_loopback() {
    assert_eq!(client_host_for_local("0.0.0.0"), "127.0.0.1");
}

#[test]
fn ipv6_unspecified_rewrites_to_bracketed_loopback() {
    assert_eq!(client_host_for_local("::"), "[::1]");
    assert_eq!(client_host_for_local("[::]"), "[::1]");
}

#[test]
fn ipv6_loopback_gets_bracketed_for_url_safety() {
    assert_eq!(client_host_for_local("::1"), "[::1]");
}

#[test]
fn concrete_ipv6_gets_bracketed() {
    assert_eq!(client_host_for_local("2001:db8::1"), "[2001:db8::1]");
}

#[test]
fn already_bracketed_ipv6_passes_through() {
    assert_eq!(client_host_for_local("[::1]"), "[::1]");
    assert_eq!(client_host_for_local("[2001:db8::1]"), "[2001:db8::1]");
}

#[test]
fn ipv4_concrete_hosts_pass_through_untouched() {
    assert_eq!(client_host_for_local("192.168.1.50"), "192.168.1.50");
    assert_eq!(client_host_for_local("127.0.0.1"), "127.0.0.1");
}

#[test]
fn hostnames_pass_through_untouched() {
    assert_eq!(client_host_for_local("localhost"), "localhost");
    assert_eq!(client_host_for_local("agent.example.com"), "agent.example.com");
}

#[test]
fn local_mcp_compatible_for_unspecified_binds() {
    assert!(is_local_mcp_compatible_bind("0.0.0.0"));
    assert!(is_local_mcp_compatible_bind("::"));
    assert!(is_local_mcp_compatible_bind("[::]"));
}

#[test]
fn local_mcp_compatible_for_explicit_loopback_binds() {
    assert!(is_local_mcp_compatible_bind("localhost"));
    assert!(is_local_mcp_compatible_bind("127.0.0.1"));
    assert!(is_local_mcp_compatible_bind("127.255.255.254"));
    assert!(is_local_mcp_compatible_bind("::1"));
    assert!(is_local_mcp_compatible_bind("[::1]"));
    // With port suffix.
    assert!(is_local_mcp_compatible_bind("localhost:8767"));
    assert!(is_local_mcp_compatible_bind("127.0.0.1:8767"));
    assert!(is_local_mcp_compatible_bind("[::1]:8767"));
}

#[test]
fn local_mcp_incompatible_for_concrete_non_loopback_binds() {
    // The proxy has no Bearer token, and peers that are not on the loopback need one.
    assert!(!is_local_mcp_compatible_bind("192.168.1.50"));
    assert!(!is_local_mcp_compatible_bind("192.168.1.50:8767"));
    assert!(!is_local_mcp_compatible_bind("10.0.0.1"));
    assert!(!is_local_mcp_compatible_bind("agent.internal"));
    assert!(!is_local_mcp_compatible_bind("agent.example.com:8767"));
    assert!(!is_local_mcp_compatible_bind("[2001:db8::1]"));
    assert!(!is_local_mcp_compatible_bind("[2001:db8::1]:8767"));
    // Public IPs likewise.
    assert!(!is_local_mcp_compatible_bind("203.0.113.5"));
}

#[test]
fn rewriting_a_host_twice_changes_nothing_more() {
    for host in ["0.0.0.0", "::", "[::]", "::1", "2001:db8::1", "localhost", ""] {
        let once = client_host_for_local(host);
        assert_eq!(client_host_for_local(&once), once);
    }
}

#[test]
fn ports_do_not_hide_unspecified_binds() {
    assert!(is_local_mcp_compatible_bind("0.0.0.0:8767"));
    assert!(is_local_mcp_compatible_bind("[::]:8767"));
}

#[test]
fn local_mcp_is_refused_for_concrete_binds() {
    assert!(check_local_mcp_bind(None).is_ok());
    assert!(check_local_mcp_bind(Some("0.0.0.0")).is_ok());
    assert_eq!(
        check_local_mcp_bind(Some("192.168.1.50")).unwrap_err(),
        "refusing to write a local MCP config: the daemon binds only to `192.168.1.50`, and the MCP proxy reaches it through loopback alone. Bind to 127.0.0.1 or 0.0.0.0"
    );
}
