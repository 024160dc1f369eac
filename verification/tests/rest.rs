use webex::client::host_prefixes::HostPrefixes;
use webex::client::rest::{
    extract_html_title, is_success_status, page_items, user_agent, AuthorizationType, Error,
    PageCursor, RestClient, MAX_NEXT_PAGE_REQUESTS, REST_HOST_PREFIX, STATUS_LOOP_DETECTED,
};

fn client_with(entries: &[(&str, &str)]) -> RestClient {
    let mut prefixes = HostPrefixes::new();
    for (k, v) in entries {
        prefixes.insert(k.to_string(), v.to_string());
    }
    RestClient::new_with(prefixes, reqwest::Client::new())
}

fn status_text(e: &Error) -> (u16, String) {
    match e {
        Error::StatusText(code, msg) => (*code, msg.clone()),
    }
}

// ── Pagination (the listing scenarios, replayed on the cursor) ───────────

#[test]
fn list_follows_only_rel_next_from_link_header() {
    let base = "http://127.0.0.1:1234";
    let mut cursor = PageCursor::<String>::new(&format!("{base}/rooms"));

    let first = cursor.next_request().unwrap();
    assert_eq!(first.url, format!("{base}/rooms"));
    assert!(first.with_query);

    let header = format!(
        "<{base}/rooms?cursor=prev>; rel=\"prev\", <{base}/rooms?cursor=page-2>; rel=\"next\", <{base}/rooms?cursor=last>; rel=\"last\""
    );
    cursor.on_page(Some(&header), Some(vec!["room-1".to_string()]), None).unwrap();

    let second = cursor.next_request().unwrap();
    assert_eq!(second.url, format!("{base}/rooms?cursor=page-2"));
    assert!(!second.with_query);

    cursor.on_page(None, Some(vec!["room-2".to_string()]), None).unwrap();
    assert!(cursor.next_request().is_none());
    assert_eq!(cursor.followed_pages(), 1);

    let rooms = cursor.into_items();
    assert_eq!(rooms.len(), 2);
    assert_eq!(rooms[0], "room-1");
    assert_eq!(rooms[1], "room-2");
}

#[test]
fn list_ignores_malformed_link_header() {
    let mut cursor = PageCursor::<String>::new("http://127.0.0.1:1234/rooms");
    assert!(cursor.next_request().is_some());
    cursor.on_page(Some("garbage value"), Some(vec!["room-1".to_string()]), None).unwrap();
    assert!(cursor.next_request().is_none());
    let rooms = cursor.into_items();
    assert_eq!(rooms.len(), 1);
    assert_eq!(rooms[0], "room-1");
}

#[test]
fn list_stops_when_link_header_is_missing() {
    let mut cursor = PageCursor::<String>::new("http://127.0.0.1:1234/rooms");
    assert!(cursor.next_request().is_some());
    cursor.on_page(None, Some(vec!["room-1".to_string()]), None).unwrap();
    assert!(cursor.next_request().is_none());
    assert_eq!(cursor.followed_pages(), 0);
    let rooms = cursor.into_items();
    assert_eq!(rooms.len(), 1);
    assert_eq!(rooms[0], "room-1");
}

#[test]
fn list_errors_when_pagination_cap_is_reached() {
    let base = "http://127.0.0.1:1234";
    let mut cursor = PageCursor::<String>::new(&format!("{base}/rooms"));
    let mut requests = 0usize;
    let mut error = None;
    while let Some(page) = cursor.next_request() {
        requests += 1;
        let expected = if requests == 1 {
            format!("{base}/rooms")
        } else {
            format!("{base}/rooms?cursor=page-{}", requests - 1)
        };
        assert_eq!(page.url, expected);
        let header = format!("<{base}/rooms?cursor=page-{requests}>; rel=\"next\"");
        let items = vec![format!("room-{}", requests - 1)];
        if let Err(e) = cursor.on_page(Some(&header), Some(items), None) {
            error = Some(e);
            break;
        }
    }
    assert_eq!(requests, MAX_NEXT_PAGE_REQUESTS + 1);
    let error = error.unwrap();
    let (code, _) = status_text(&error);
    assert_eq!(code, STATUS_LOOP_DETECTED);
    assert!(error.describe().contains("Pagination safety cap of 100 next pages reached"));
}

#[test]
fn listing_collects_every_page_in_order() {
    let mut cursor = PageCursor::<u32>::new("http://h/devices");
    cursor.next_request().unwrap();
    cursor.on_page(Some("<http://h/devices?p=2>; rel=\"next\""), None, Some(vec![1, 2])).unwrap();
    cursor.next_request().unwrap();
    cursor.on_page(Some("<http://h/devices?p=3>; rel=\"next\""), None, None).unwrap();
    cursor.next_request().unwrap();
    cursor.on_page(None, Some(vec![3]), Some(vec![9])).unwrap();
    assert!(cursor.next_request().is_none());
    assert_eq!(cursor.into_items(), vec![1, 2, 3]);
}

#[test]
fn advance_follows_the_given_link_up_to_the_cap() {
    let mut cursor = PageCursor::<u8>::new("http://h/a");
    cursor.next_request().unwrap();
    cursor.advance(Some("http://h/b".to_string())).unwrap();
    assert_eq!(cursor.next_request().unwrap().url, "http://h/b");
    cursor.advance(None).unwrap();
    assert!(cursor.next_request().is_none());
    for _ in 1..MAX_NEXT_PAGE_REQUESTS {
        cursor.advance(Some("http://h/c".to_string())).unwrap();
    }
    assert_eq!(cursor.followed_pages(), MAX_NEXT_PAGE_REQUESTS);
    let err = cursor.advance(Some("http://h/d".to_string())).unwrap_err();
    assert_eq!(status_text(&err).0, STATUS_LOOP_DETECTED);
}

#[test]
fn next_link_is_taken_from_rel_next_only() {
    assert_eq!(
        RestClient::extract_next_link_url("<https://a/x?page=2>; rel=\"next\", <https://a/x?page=9>; rel=\"last\""),
        Some("https://a/x?page=2".to_string())
    );
    assert_eq!(RestClient::extract_next_link_url("<https://a/x?page=9>; rel=\"last\""), None);
    assert_eq!(RestClient::extract_next_link_url("garbage value"), None);
}

#[test]
fn page_items_prefers_items_then_devices() {
    assert_eq!(page_items(Some(vec![1, 2]), Some(vec![3])), vec![1, 2]);
    assert_eq!(page_items(None, Some(vec![3])), vec![3]);
    assert_eq!(page_items::<u8>(None, None), Vec::<u8>::new());
}

// ── Host prefixes and URLs ───────────────────────────────────────────────

#[test]
fn host_prefix_prefers_explicit_host_then_table_then_default() {
    let empty = RestClient::try_new().unwrap();
    assert_eq!(empty.get_host_prefix(None, "rest"), REST_HOST_PREFIX);
    assert_eq!(empty.get_host_prefix(Some("http://h"), "rest"), "http://h");

    let client = client_with(&[("rest", "http://table")]);
    assert_eq!(client.get_host_prefix(None, "rest"), "http://table");
    assert_eq!(client.get_host_prefix(Some("http://h"), "rest"), "http://h");
    assert_eq!(client.get_host_prefix(None, "other"), REST_HOST_PREFIX);
}

#[test]
fn host_prefixes_insert_replaces_and_returns_previous() {
    let mut prefixes = HostPrefixes::new();
    assert_eq!(prefixes.insert("rest".to_string(), "a".to_string()), None);
    assert_eq!(prefixes.insert("rooms".to_string(), "b".to_string()), None);
    assert_eq!(prefixes.insert("rest".to_string(), "c".to_string()), Some("a".to_string()));
    assert_eq!(prefixes.get("rest"), Some(&"c".to_string()));
    assert_eq!(prefixes.get("rooms"), Some(&"b".to_string()));
    assert_eq!(prefixes.get("teams"), None);
    let copy = prefixes.clone();
    assert_eq!(copy.get("rest"), Some(&"c".to_string()));
}

#[test]
fn request_urls_join_prefix_and_path() {
    let client = client_with(&[("rest", "http://table")]);
    assert_eq!(client.path_url(None, "rooms"), "http://table/rooms");
    assert_eq!(client.path_url(Some("http://h"), "rooms"), "http://h/rooms");
    assert_eq!(client.resource_url(None, "rooms", "abc"), "http://table/rooms/abc");
    assert_eq!(
        RestClient::try_new().unwrap().resource_url(None, "messages", "m1"),
        format!("{REST_HOST_PREFIX}/messages/m1")
    );
}

#[test]
fn list_urls_use_endpoint_then_rest_prefix() {
    let client = client_with(&[("rest", "http://rest"), ("devices", "http://wdm")]);
    assert_eq!(client.list_url(None, "devices"), "http://wdm/devices");
    assert_eq!(client.list_url(None, "rooms"), "http://rest/rooms");
    assert_eq!(client.list_url(Some("http://h"), "devices"), "http://h/devices");
    assert_eq!(RestClient::try_new().unwrap().list_url(None, "rooms"), format!("{REST_HOST_PREFIX}/rooms"));
}

#[test]
fn legacy_urls_look_up_the_path_before_the_query() {
    let client = client_with(&[("people/me", "http://people")]);
    assert_eq!(client.rest_method_prefix("people/me?x=1"), "http://people");
    assert_eq!(client.rest_method_url("people/me?x=1"), "http://people/people/me?x=1");
    assert_eq!(client.rest_method_url("rooms"), format!("{REST_HOST_PREFIX}/rooms"));
}

// ── Replies ──────────────────────────────────────────────────────────────

#[test]
fn html_error_page_reports_its_title() {
    assert_eq!(
        extract_html_title("<html><head><title>Bad Gateway</title></head></html>", 502),
        "Bad Gateway"
    );
    assert_eq!(
        extract_html_title("<html><title></title></html>", 502),
        "HTTP 502 - HTML error page returned"
    );
    assert_eq!(extract_html_title("<html>no title</html>", 404), "HTTP 404 - HTML error page returned");
}

#[test]
fn error_reply_message_comes_from_html_json_or_text() {
    let html = RestClient::handle_error_response(
        503,
        "<!DOCTYPE html><html><title>Unavailable</title></html>".to_string(),
    );
    assert_eq!(status_text(&html), (503, "Unavailable".to_string()));

    let json = RestClient::handle_error_response(
        400,
        "{\"message\":\"Bad things\",\"trackingId\":\"x\"}".to_string(),
    );
    assert_eq!(status_text(&json), (400, "Bad things".to_string()));

    let json_without_message =
        RestClient::handle_error_response(400, "{\"errors\":[]}".to_string());
    assert_eq!(status_text(&json_without_message), (400, "{\"errors\":[]}".to_string()));

    let plain = RestClient::handle_error_response(500, "oops".to_string());
    assert_eq!(status_text(&plain), (500, "oops".to_string()));
}

#[test]
fn successful_reply_text_is_parsed_and_empty_reads_as_object() {
    assert_eq!(RestClient::interpret_response(200, "{\"a\":1}".to_string()).unwrap(), "{\"a\":1}");
    assert_eq!(RestClient::interpret_response(204, String::new()).unwrap(), "{}");
    let err = RestClient::interpret_response(404, "{\"message\":\"gone\"}".to_string()).unwrap_err();
    assert_eq!(status_text(&err), (404, "gone".to_string()));
}

#[test]
fn success_statuses_are_2xx() {
    assert!(is_success_status(200));
    assert!(is_success_status(299));
    assert!(!is_success_status(199));
    assert!(!is_success_status(300));
    assert!(!is_success_status(404));
}

#[test]
fn missing_team_is_an_expected_error() {
    let text = "{\"message\":\"Could not find teams for user\"}";
    assert_eq!(
        RestClient::expected_error_message(404, "https://x/v1/teams", text),
        Some("Could not find teams for user".to_string())
    );
    assert_eq!(RestClient::expected_error_message(500, "https://x/v1/teams", text), None);
    assert_eq!(RestClient::expected_error_message(404, "https://x/v1/rooms", text), None);
    assert_eq!(RestClient::expected_error_message(404, "https://x/v1/teams", "Could not find teams"), None);
    assert_eq!(
        RestClient::expected_error_message(404, "https://x/v1/teams", "{\"message\":\"other\"}"),
        None
    );
}

#[test]
fn expected_error_decision_from_a_given_message() {
    let m = Some("Could not find teams for user".to_string());
    assert_eq!(RestClient::expected_from_message(404, "/teams", m.clone()), m);
    assert_eq!(RestClient::expected_from_message(403, "/teams", m.clone()), None);
    assert_eq!(RestClient::expected_from_message(404, "/rooms", m), None);
    assert_eq!(RestClient::expected_from_message(404, "/teams", None), None);
    assert_eq!(RestClient::expected_from_message(404, "/teams", Some("nope".to_string())), None);
}

#[test]
fn error_from_a_given_message() {
    let e = RestClient::error_from_message(400, "{}".to_string(), Some("Bad".to_string()));
    assert_eq!(status_text(&e), (400, "Bad".to_string()));
    let e = RestClient::error_from_message(400, "raw".to_string(), None);
    assert_eq!(status_text(&e), (400, "raw".to_string()));
    let e = RestClient::error_from_message(
        502,
        "<html><title>Gateway</title></html>".to_string(),
        Some("ignored".to_string()),
    );
    assert_eq!(status_text(&e), (502, "Gateway".to_string()));
}

#[test]
fn user_agent_names_the_version() {
    assert_eq!(user_agent(), "webex-rust/0.1.0");
}

#[test]
fn error_describe_gives_status_and_message() {
    let e = Error::StatusText(508, "loop".to_string());
    assert_eq!(e.describe(), "508: loop");
}

#[test]
fn new_and_cloned_clients_keep_the_table() {
    let client = client_with(&[("rest", "http://table")]);
    let copy = client.clone();
    assert_eq!(copy.get_host_prefix(None, "rest"), "http://table");
    let fresh = RestClient::try_new().unwrap();
    assert_eq!(fresh.get_host_prefix(None, "rest"), REST_HOST_PREFIX);
}

#[test]
fn authorization_type_is_copy() {
    let auth = AuthorizationType::Basic { username: "u", password: "p" };
    let copy = auth;
    match (auth, copy) {
        (AuthorizationType::Basic { username, .. }, AuthorizationType::Basic { password, .. }) => {
            assert_eq!(username, "u");
            assert_eq!(password, "p");
        }
        _ => panic!("expected basic authorization"),
    }
    assert!(matches!(AuthorizationType::Bearer("t"), AuthorizationType::Bearer("t")));
    assert!(matches!(AuthorizationType::NoAuth, AuthorizationType::NoAuth));
}
