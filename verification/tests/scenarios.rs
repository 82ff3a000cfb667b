use early::Early;

#[test]
fn port_last_write_wins() {
    let url = Early::new("http", "example.com").port(1).port(2).build();
    assert_eq!(url, "http://example.com:2");
}

#[test]
fn port_zero_renders_as_zero() {
    let url = Early::new("http", "example.com").port(0).build();
    assert_eq!(url, "http://example.com:0");
}

#[test]
fn fork_branches_stay_independent() {
    let base = Early::new("https", "example.com").path("api").query("v", "1");
    let people = base.clone().path("people").build();
    let machines = base.path("machines").build();
    assert_eq!(people, "https://example.com/api/people?v=1");
    assert_eq!(machines, "https://example.com/api/machines?v=1");
}

#[test]
fn encodes_query_key_and_value_independently() {
    let url = Early::new("https", "example.com").query("a b", "c/d").build();
    assert_eq!(url, "https://example.com?a%20b=c%2Fd");
}

#[test]
fn unreserved_characters_stay_unescaped() {
    let url = Early::new("http", "example.com")
        .path("AZaz09-_.~")
        .query("k-._~", "V09._~-")
        .build();
    assert_eq!(url, "http://example.com/AZaz09-_.~?k-._~=V09._~-");
}

#[test]
fn non_ascii_segment_is_escaped_byte_by_byte() {
    let url = Early::new("http", "example.com").path("caf\u{e9}").build();
    assert_eq!(url, "http://example.com/caf%C3%A9");
}

#[test]
fn empty_segment_still_renders_its_slash() {
    let url = Early::new("http", "example.com").path("").build();
    assert_eq!(url, "http://example.com/");
}

#[test]
fn duplicate_query_keys_are_kept_in_order() {
    let url = Early::new("http", "example.com")
        .query("k", "1")
        .query("k", "2")
        .build();
    assert_eq!(url, "http://example.com?k=1&k=2");
}

#[test]
fn slash_inside_segment_is_not_a_separator() {
    let url = Early::new("http", "example.com").path("a/b").build();
    assert_eq!(url, "http://example.com/a%2Fb");
}

#[test]
fn path_comes_before_query() {
    let url = Early::new("http", "example.com")
        .query("k", "v")
        .path("p")
        .build();
    assert_eq!(url, "http://example.com/p?k=v");
}
