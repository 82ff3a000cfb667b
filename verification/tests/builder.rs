use early::Early;

#[test]
fn scheme_plus_host_str() {
    let url = Early::new("https", "example.com").build();
    assert_eq!("https://example.com", url);
}

#[test]
fn scheme_plus_host_string() {
    let url = Early::new("https", &"example.com".to_string()).build();
    assert_eq!("https://example.com", url);
}

#[test]
fn can_add_port() {
    let url = Early::new("http", "example.com").port(8080).build();
    assert_eq!("http://example.com:8080", url);
}

#[test]
fn can_add_single_query_key_value() {
    let url = Early::new("https", "example.com")
        .query("my_key", "my_value")
        .build();
    assert_eq!("https://example.com?my_key=my_value", url);
}

#[test]
fn can_add_two_query_key_values() {
    let url = Early::new("https", "example.com")
        .query("my_key1", "my_value1")
        .query("my_key2", "my_value2")
        .build();
    assert_eq!(
        "https://example.com?my_key1=my_value1&my_key2=my_value2",
        url
    );
}

#[test]
fn can_add_single_path_element() {
    let url = Early::new("http", "example.com").path("foo").build();
    assert_eq!(url, "http://example.com/foo");
}

#[test]
fn can_add_multiple_path_elements() {
    let url = Early::new("http", "example.com")
        .path("foo")
        .path("bar")
        .path("baz")
        .build();
    assert_eq!(url, "http://example.com/foo/bar/baz");
}

#[test]
fn url_encodes_queries() {
    let url = Early::new("https", "example.com")
        .path("foo")
        .query("a b c", "d/e/f g")
        .build();
    assert_eq!(url, "https://example.com/foo?a%20b%20c=d%2Fe%2Ff%20g");
}

#[test]
fn url_encodes_path() {
    let url = Early::new("http", "example.com").path("foo bar").build();
    assert_eq!(url, "http://example.com/foo%20bar");
}

#[test]
fn enables_building_of_variant_urls() {
    let base = Early::new("https", "example.com")
        .path("api")
        .query("version", "42");
    let people_url = base.clone().path("people").build();
    let machines_url = base
        .clone()
        .path("machines")
        .query("type", "perpetual motion")
        .build();
    assert_eq!(people_url, "https://example.com/api/people?version=42");
    assert_eq!(
        machines_url,
        "https://example.com/api/machines?version=42&type=perpetual%20motion"
    );
}
