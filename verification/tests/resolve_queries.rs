use voice_core::errors::VoiceError;
use voice_core::resolve::{classify_query, connect_target, resolver_request};

#[test]
fn url_query_is_passed_through_unmodified() {
    let q = "https://media.example/watch?v=abc123";
    assert!(classify_query(q));
    assert_eq!(resolver_request(q), q);
}

#[test]
fn plain_http_scheme_counts_as_url() {
    let q = "http://media.example/a";
    assert!(classify_query(q));
    assert_eq!(resolver_request(q), q);
}

#[test]
fn text_query_gets_the_search_marker() {
    let q = "never gonna give you up";
    assert!(!classify_query(q));
    assert_eq!(resolver_request(q), "ytsearch:never gonna give you up");
}

#[test]
fn short_query_is_a_search() {
    assert!(!classify_query("ht"));
    assert_eq!(resolver_request("ht"), "ytsearch:ht");
}

#[test]
fn empty_query_is_a_search() {
    assert!(!classify_query(""));
    assert_eq!(resolver_request(""), "ytsearch:");
}

#[test]
fn scheme_prefix_alone_decides() {
    // classification looks only at the scheme prefix: any text opening
    // with it is sent as a URL
    assert!(classify_query("http"));
    assert_eq!(resolver_request("http"), "http");
    assert!(!classify_query("see http"));
    assert_eq!(resolver_request("see http"), "ytsearch:see http");
}

#[test]
fn connect_target_uses_the_invokers_channel() {
    assert_eq!(connect_target(Some(42)), Ok(42));
}

#[test]
fn connect_target_refuses_without_voice_membership() {
    assert_eq!(connect_target(None), Err(VoiceError::NotInVoiceChannel));
}
