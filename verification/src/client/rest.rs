//! Low-level REST client for Webex API requests: the decisions it makes
//! about host prefixes, request URLs, replies and pagination.
//!
//! Sending a request and reading its reply is left to the caller; this module
//! says where a request goes, which reply text is parsed as JSON, which error
//! a failed reply becomes, and when a paginated listing stops.

use crate::client::host_prefixes::HostPrefixes;
use crate::client::outside::{
    build_http_client, clone_http_client, json_str_field, rel_link_uri, spec_json_str_field, spec_rel_link_uri,
};
use crate::text::{
    before_first, chars_find, chars_of, concat2, concat3, decimal, decimal_string, spec_contains,
    spec_find, spec_starts_with, str_before_first, str_contains, str_starts_with,
};
use vstd::prelude::*;
use vstd::string::*;

verus! {

/// The host prefix used when neither the caller nor the table names one.
pub const REST_HOST_PREFIX: &'static str = "https://api.ciscospark.com/v1";

/// The version of this crate, named in the `User-Agent` header.
pub const CRATE_VERSION: &'static str = "0.1.0";

/// How many `next` links one listing follows at most.
pub const MAX_NEXT_PAGE_REQUESTS: usize = 100;

/// HTTP status `404 Not Found`.
pub const STATUS_NOT_FOUND: u16 = 404;

/// HTTP status `508 Loop Detected`.
pub const STATUS_LOOP_DETECTED: u16 = 508;

/// Authorization type for REST requests.
#[derive(Clone, Copy)]
pub enum AuthorizationType<'a> {
    /// No authorization
    NoAuth,
    /// Bearer token authorization
    Bearer(&'a str),
    /// Basic authentication
    Basic {
        /// Username
        username: &'a str,
        /// Password
        password: &'a str,
    },
}

/// An error reply of the Webex API.
#[derive(Debug)]
pub enum Error {
    /// The HTTP status and the message that goes with it.
    StatusText(u16, String),
}

impl Error {
    /// The status code and message, as `"<status>: <message>"`.
    pub fn describe(&self) -> (r: String)
        ensures
            match self {
                Error::StatusText(code, msg) => r@ == decimal(*code as nat) + ": "@ + msg@,
            },
    {
        match self {
            Error::StatusText(code, msg) => {
                let digits = decimal_string(*code as u64);
                concat3(digits.as_str(), ": ", msg.as_str())
            },
        }
    }
}

/// The text of an optional string.
pub open spec fn opt_view(o: Option<&str>) -> Option<Seq<char>> {
    match o {
        Some(s) => Some(s@),
        None => None,
    }
}

/// The value stored under `key`, or the default host prefix.
pub open spec fn spec_lookup_prefix(prefixes: Map<Seq<char>, Seq<char>>, key: Seq<char>) -> Seq<char> {
    if prefixes.contains_key(key) {
        prefixes[key]
    } else {
        REST_HOST_PREFIX@
    }
}

/// The host prefix of a request: the caller's host when given, else the one
/// stored under `default_key`, else the default host prefix.
pub open spec fn spec_host_prefix(
    prefixes: Map<Seq<char>, Seq<char>>,
    host: Option<Seq<char>>,
    default_key: Seq<char>,
) -> Seq<char> {
    match host {
        Some(h) => h,
        None => spec_lookup_prefix(prefixes, default_key),
    }
}

/// The host prefix of a listing: the caller's host when given, else the one
/// stored under the endpoint, else the one stored under `rest`, else the
/// default host prefix.
pub open spec fn spec_list_host_prefix(
    prefixes: Map<Seq<char>, Seq<char>>,
    host: Option<Seq<char>>,
    endpoint: Seq<char>,
) -> Seq<char> {
    match host {
        Some(h) => h,
        None => if prefixes.contains_key(endpoint) {
            prefixes[endpoint]
        } else {
            spec_lookup_prefix(prefixes, "rest"@)
        },
    }
}

/// The host prefix of a legacy request: the one stored under the part of the
/// method path before any `?`, else the default host prefix.
pub open spec fn spec_rest_method_prefix(prefixes: Map<Seq<char>, Seq<char>>, rest_method: Seq<char>) -> Seq<char> {
    spec_lookup_prefix(prefixes, before_first(rest_method, '?'))
}

/// The message of an HTML error page that has no usable `<title>`.
pub open spec fn spec_html_fallback(status: u16) -> Seq<char> {
    "HTTP "@ + decimal(status as nat) + " - HTML error page returned"@
}

/// The title of an HTML error page: the text between the first `<title>` and
/// the first `</title>` when the title text is not empty, else a message
/// naming the status.
pub open spec fn spec_html_title(html: Seq<char>, status: u16) -> Seq<char> {
    match (spec_find(html, "<title>"@), spec_find(html, "</title>"@)) {
        (Some(open), Some(close)) => if open + 7 < close {
            html.subrange(open + 7, close)
        } else {
            spec_html_fallback(status)
        },
        _ => spec_html_fallback(status),
    }
}

/// The reply text is an HTML page.
pub open spec fn spec_is_html(text: Seq<char>) -> bool {
    spec_starts_with(text, "<!DOCTYPE html>"@) || spec_starts_with(text, "<html"@)
}

/// The message an error reply is reported with, given the `message` string
/// read from it as JSON: the page title for HTML, else that message, else the
/// reply text itself.
pub open spec fn spec_error_text_from(status: u16, text: Seq<char>, message: Option<Seq<char>>) -> Seq<char> {
    if spec_is_html(text) {
        spec_html_title(text, status)
    } else {
        match message {
            Some(m) => m,
            None => text,
        }
    }
}

/// The message an error reply is reported with: the page title for HTML, the
/// `message` string of a JSON object, else the reply text itself.
pub open spec fn spec_error_text(status: u16, text: Seq<char>) -> Seq<char> {
    spec_error_text_from(status, text, spec_json_str_field(text, "message"@))
}

/// A reply that begins with `<html` (whatever follows, such as attributes) or
/// with `<!DOCTYPE html>` is an HTML page: its error message is the page title
/// (or the fallback naming the status), whatever JSON `message` was read. Any
/// other reply is reported with its JSON `message` when there is one, and
/// with its own text when there is none.
pub proof fn lemma_error_text_cases(status: u16, text: Seq<char>, message: Option<Seq<char>>)
    ensures
        text.len() >= 5 && text.subrange(0, 5) == seq!['<', 'h', 't', 'm', 'l']
            ==> spec_error_text_from(status, text, message) == spec_html_title(text, status),
        text.len() >= 15 && text.subrange(0, 15) == seq![
            '<', '!', 'D', 'O', 'C', 'T', 'Y', 'P', 'E', ' ', 'h', 't', 'm', 'l', '>',
        ] ==> spec_error_text_from(status, text, message) == spec_html_title(text, status),
        !(text.len() >= 5 && text.subrange(0, 5) == seq!['<', 'h', 't', 'm', 'l']) && !(text.len()
            >= 15 && text.subrange(0, 15) == seq![
            '<', '!', 'D', 'O', 'C', 'T', 'Y', 'P', 'E', ' ', 'h', 't', 'm', 'l', '>',
        ]) ==> spec_error_text_from(status, text, message) == match message {
            Some(m) => m,
            None => text,
        },
{
    reveal_strlit("<html");
    reveal_strlit("<!DOCTYPE html>");
    assert("<html"@ =~= seq!['<', 'h', 't', 'm', 'l']);
    assert("<!DOCTYPE html>"@ =~= seq![
        '<', '!', 'D', 'O', 'C', 'T', 'Y', 'P', 'E', ' ', 'h', 't', 'm', 'l', '>',
    ]);
}

/// A legacy request to a method path `a` that holds no `?`, with or without a
/// query `?b` after it, goes to the host prefix stored under exactly `a`, or
/// to the default host prefix when the table has no entry for `a`.
pub proof fn lemma_rest_method_prefix_is_path_entry(
    prefixes: Map<Seq<char>, Seq<char>>,
    a: Seq<char>,
    b: Seq<char>,
)
    requires
        forall|i: int| 0 <= i < a.len() ==> a[i] != '?',
    ensures
        spec_rest_method_prefix(prefixes, a) == (if prefixes.contains_key(a) {
            prefixes[a]
        } else {
            REST_HOST_PREFIX@
        }),
        spec_rest_method_prefix(prefixes, a + seq!['?'] + b) == (if prefixes.contains_key(a) {
            prefixes[a]
        } else {
            REST_HOST_PREFIX@
        }),
{
    crate::text::lemma_before_first_cases(a, '?', b);
}

/// An error is the expected one for a user without teams exactly when the
/// status is `404`, `/teams` occurs anywhere in the URL, and the JSON message
/// holds `Could not find teams` somewhere; the message is then handed back
/// unchanged.
pub proof fn lemma_expected_message_law(status: u16, url: Seq<char>, message: Option<Seq<char>>)
    ensures
        spec_expected_message(status, url, message) is Some <==> {
            &&& status == 404
            &&& message is Some
            &&& exists|i: int| crate::text::matches_at(url, "/teams"@, i)
            &&& exists|j: int| crate::text::matches_at(message->0, "Could not find teams"@, j)
        },
        spec_expected_message(status, url, message) matches Some(m) ==> message == Some(m),
{
    crate::text::lemma_contains_iff_occurs(url, "/teams"@);
    if message is Some {
        crate::text::lemma_contains_iff_occurs(message->0, "Could not find teams"@);
    }
}

/// The title of an HTML page is the text between the first `<title>` and the
/// first `</title>` when that text is not empty. A page without any `<title>`
/// is reported as `HTTP <status> - HTML error page returned`, with the status
/// written in decimal.
pub proof fn lemma_html_title_law(html: Seq<char>, status: u16, open: int, close: int)
    ensures
        crate::text::matches_at(html, "<title>"@, open) && (forall|k: int|
            0 <= k < open ==> !#[trigger] crate::text::matches_at(html, "<title>"@, k))
            && crate::text::matches_at(html, "</title>"@, close) && (forall|k: int|
            0 <= k < close ==> !#[trigger] crate::text::matches_at(html, "</title>"@, k)) && open
            + 7 < close ==> spec_html_title(html, status) == html.subrange(open + 7, close),
        (forall|k: int| !#[trigger] crate::text::matches_at(html, "<title>"@, k)) ==> spec_html_title(
            html,
            status,
        ) == seq!['H', 'T', 'T', 'P', ' '] + decimal(status as nat) + " - HTML error page returned"@,
{
    reveal_strlit("HTTP ");
    assert("HTTP "@ =~= seq!['H', 'T', 'T', 'P', ' ']);
    crate::text::lemma_find_first(html, "<title>"@, open);
    crate::text::lemma_find_first(html, "</title>"@, close);
}

/// The host prefix of a request is the caller's host whenever one is given;
/// without one it is the table's entry for the key, or the default host
/// prefix when the table has none. A listing without a host looks for the
/// endpoint's entry first, then the `rest` entry, then the default.
pub proof fn lemma_host_prefix_choice(
    prefixes: Map<Seq<char>, Seq<char>>,
    h: Seq<char>,
    key: Seq<char>,
)
    ensures
        spec_host_prefix(prefixes, Some(h), key) == h,
        spec_list_host_prefix(prefixes, Some(h), key) == h,
        prefixes.contains_key(key) ==> spec_host_prefix(prefixes, None, key) == prefixes[key],
        !prefixes.contains_key(key) ==> spec_host_prefix(prefixes, None, key) == REST_HOST_PREFIX@,
        prefixes.contains_key(key) ==> spec_list_host_prefix(prefixes, None, key) == prefixes[key],
        !prefixes.contains_key(key) && prefixes.contains_key("rest"@) ==> spec_list_host_prefix(
            prefixes,
            None,
            key,
        ) == prefixes["rest"@],
        !prefixes.contains_key(key) && !prefixes.contains_key("rest"@) ==> spec_list_host_prefix(
            prefixes,
            None,
            key,
        ) == REST_HOST_PREFIX@,
{
}

/// Exactly the statuses `200..=299` are successes, and the body of an empty
/// successful reply is read as the empty JSON object `{}`; any other body is
/// read as it is.
pub proof fn lemma_success_reply(status: u16, text: Seq<char>)
    ensures
        spec_is_success(status) <==> 200 <= status <= 299,
        text.len() == 0 ==> spec_success_body(text) == seq!['{', '}'],
        text.len() > 0 ==> spec_success_body(text) == text,
{
    reveal_strlit("{}");
    assert("{}"@ =~= seq!['{', '}']);
}

/// The status is in the `2xx` range.
pub open spec fn spec_is_success(status: u16) -> bool {
    200 <= status < 300
}

/// The text parsed as JSON from a successful reply; an empty reply (such as
/// `204 No Content`) reads as the empty object.
pub open spec fn spec_success_body(text: Seq<char>) -> Seq<char> {
    if text.len() == 0 {
        "{}"@
    } else {
        text
    }
}

/// The message of a `404` for a team listing, given the `message` string read
/// from the reply as JSON, when that message says the teams could not be
/// found: expected when the user belongs to no team. `None` for any other
/// error.
pub open spec fn spec_expected_message(status: u16, url: Seq<char>, message: Option<Seq<char>>) -> Option<Seq<char>> {
    match message {
        Some(m) => if status == STATUS_NOT_FOUND && spec_contains(url, "/teams"@) && spec_contains(
            m,
            "Could not find teams"@,
        ) {
            Some(m)
        } else {
            None
        },
        None => None,
    }
}

/// The text of an optional string.
pub open spec fn opt_string_view(o: Option<String>) -> Option<Seq<char>> {
    match o {
        Some(s) => Some(s@),
        None => None,
    }
}

/// The `next` link of an optional `Link` header.
pub open spec fn spec_next_link(link_header: Option<Seq<char>>) -> Option<Seq<char>> {
    match link_header {
        Some(h) => spec_rel_link_uri(h, "next"@),
        None => None,
    }
}

/// The message of the error that ends a listing at the pagination cap.
pub open spec fn spec_cap_message() -> Seq<char> {
    "Pagination safety cap of "@ + decimal(MAX_NEXT_PAGE_REQUESTS as nat) + " next pages reached"@
}

/// Whether `status` is a success status (`2xx`).
pub fn is_success_status(status: u16) -> (r: bool)
    ensures
        r == spec_is_success(status),
{
    200 <= status && status < 300
}

/// The `User-Agent` header value: `webex-rust/` and the crate version.
pub fn user_agent() -> (r: String)
    ensures
        r@ == "webex-rust/"@ + CRATE_VERSION@,
{
    concat2("webex-rust/", CRATE_VERSION)
}

/// Extract title from HTML error page.
pub fn extract_html_title(html: &str, status: u16) -> (r: String)
    ensures
        r@ == spec_html_title(html@, status),
{
    proof {
        reveal_strlit("<title>");
        reveal_strlit("</title>");
    }
    let h = chars_of(html);
    let open_tag = chars_of("<title>");
    let close_tag = chars_of("</title>");
    let open = chars_find(&h, &open_tag);
    let close = chars_find(&h, &close_tag);
    assert(open_tag@.len() == 7);
    if let Some(start_pos) = open {
        if let Some(end_pos) = close {
            let total = h.len();
            assert(start_pos + 7 <= total);
            let start = start_pos + 7;
            if start < end_pos {
                return html.substring_char(start, end_pos).to_owned();
            }
        }
    }
    let digits = decimal_string(status as u64);
    concat3("HTTP ", digits.as_str(), " - HTML error page returned")
}

/// A step of a paginated listing: the URL to request, and whether the
/// caller's query parameters go with it (only on the first page).
pub struct PageRequest {
    /// The URL of the page.
    pub url: String,
    /// Whether the listing's query parameters are added to this request.
    pub with_query: bool,
}

/// The state of a paginated listing, as the contracts see it.
pub struct CursorState {
    /// The URL of the page to request next, if any.
    pub next_url: Option<Seq<char>>,
    /// The query parameters have not been sent yet.
    pub query_pending: bool,
    /// How many `next` links have been followed.
    pub followed_pages: nat,
}

/// The state after the pending request has been taken.
pub open spec fn spec_after_request(c: CursorState) -> CursorState {
    CursorState { next_url: None, query_pending: false, followed_pages: c.followed_pages }
}

/// The state after a page whose `next` link is `next`; `None` when following
/// it would exceed the pagination cap.
pub open spec fn spec_advance(c: CursorState, next: Option<Seq<char>>) -> Option<CursorState> {
    match next {
        None => Some(CursorState { next_url: None, ..c }),
        Some(u) => if c.followed_pages >= MAX_NEXT_PAGE_REQUESTS {
            None
        } else {
            Some(CursorState { next_url: Some(u), followed_pages: c.followed_pages + 1, ..c })
        },
    }
}

/// Requests pages one after another, each page giving the `next` link in
/// `links`: the state at the end, or `None` if the cap stopped the listing.
pub open spec fn spec_follow_links(c: CursorState, links: Seq<Seq<char>>) -> Option<CursorState>
    decreases links.len(),
{
    if links.len() == 0 {
        Some(c)
    } else {
        match spec_advance(spec_after_request(c), Some(links[0])) {
            Some(d) => spec_follow_links(d, links.drop_first()),
            None => None,
        }
    }
}

/// A listing follows at most `MAX_NEXT_PAGE_REQUESTS` `next` links: from a
/// state within the cap, a run of pages that each link to a next page goes on
/// exactly while the count of followed links stays within the cap. When it
/// goes on, the count grows by one per page, the cursor points at the last
/// link, and the query parameters are no longer pending.
pub proof fn lemma_pagination_cap(c: CursorState, links: Seq<Seq<char>>)
    requires
        c.followed_pages <= MAX_NEXT_PAGE_REQUESTS,
    ensures
        spec_follow_links(c, links) is Some <==> c.followed_pages + links.len()
            <= MAX_NEXT_PAGE_REQUESTS,
        spec_follow_links(c, links) matches Some(d) ==> {
            &&& d.followed_pages == c.followed_pages + links.len()
            &&& links.len() > 0 ==> d.next_url == Some(links.last()) && !d.query_pending
        },
    decreases links.len(),
{
    if links.len() > 0 && c.followed_pages < MAX_NEXT_PAGE_REQUESTS {
        let d0 = spec_advance(spec_after_request(c), Some(links[0]))->Some_0;
        lemma_pagination_cap(d0, links.drop_first());
        if links.len() > 1 {
            assert(links.drop_first().last() == links.last());
        }
    }
}

/// A fresh listing requests at most `MAX_NEXT_PAGE_REQUESTS + 1` pages: its
/// first page and one page per followed `next` link. A run of pages that all
/// link onward fails exactly when the `next` link past the cap arrives.
pub proof fn lemma_fresh_listing_cap(initial_url: Seq<char>, links: Seq<Seq<char>>)
    ensures
        spec_follow_links(
            CursorState { next_url: Some(initial_url), query_pending: true, followed_pages: 0 },
            links,
        ) is Some <==> links.len() <= MAX_NEXT_PAGE_REQUESTS,
{
    lemma_pagination_cap(
        CursorState { next_url: Some(initial_url), query_pending: true, followed_pages: 0 },
        links,
    );
}

/// A page without a `next` link ends the listing, whatever the count of
/// followed links: no further page is requested.
pub proof fn lemma_last_page(c: CursorState)
    ensures
        spec_advance(c, None) matches Some(d) && d.next_url is None && d.followed_pages
            == c.followed_pages,
{
}

/// Walks the pages of a listing: which URL to request next, when to stop,
/// and the items collected so far, in page order.
pub struct PageCursor<T> {
    next_url: Option<String>,
    query_pending: bool,
    followed_pages: usize,
    items: Vec<T>,
}

impl<T> View for PageCursor<T> {
    type V = CursorState;

    closed spec fn view(&self) -> CursorState {
        CursorState {
            next_url: match self.next_url {
                Some(u) => Some(u@),
                None => None,
            },
            query_pending: self.query_pending,
            followed_pages: self.followed_pages as nat,
        }
    }
}

impl<T> PageCursor<T> {
    #[verifier::type_invariant]
    spec fn within_cap(&self) -> bool {
        self.followed_pages <= MAX_NEXT_PAGE_REQUESTS
    }

    /// The items collected from the pages recorded so far, in page order.
    pub closed spec fn items(&self) -> Seq<T> {
        self.items@
    }

    /// A listing that starts at `initial_url` and sends its query parameters
    /// with the first request; no items are collected yet.
    pub fn new(initial_url: &str) -> (r: PageCursor<T>)
        ensures
            r@ == (CursorState { next_url: Some(initial_url@), query_pending: true, followed_pages: 0 }),
            r.items() == Seq::<T>::empty(),
    {
        PageCursor {
            next_url: Some(initial_url.to_owned()),
            query_pending: true,
            followed_pages: 0,
            items: Vec::new(),
        }
    }

    /// How many `next` links have been followed; never more than the cap.
    pub fn followed_pages(&self) -> (r: usize)
        ensures
            r == self@.followed_pages,
            r <= MAX_NEXT_PAGE_REQUESTS,
    {
        proof {
            use_type_invariant(self);
        }
        self.followed_pages
    }

    /// Takes the next page to request; `None` once the listing is complete.
    pub fn next_request(&mut self) -> (r: Option<PageRequest>)
        ensures
            match old(self)@.next_url {
                None => r is None && final(self)@ == old(self)@,
                Some(u) => (r matches Some(p) && p.url@ == u && p.with_query == old(
                    self,
                )@.query_pending) && final(self)@ == spec_after_request(old(self)@),
            },
            final(self).items() == old(self).items(),
    {
        proof {
            use_type_invariant(&*self);
        }
        let mut next: Option<String> = None;
        std::mem::swap(&mut next, &mut self.next_url);
        match next {
            None => None,
            Some(url) => {
                let with_query = self.query_pending;
                self.query_pending = false;
                Some(PageRequest { url, with_query })
            },
        }
    }

    /// Goes on to the `next` link of the page just read, if there is one; fails
    /// with `508 Loop Detected` when that link would pass the pagination cap.
    pub fn advance(&mut self, next: Option<String>) -> (r: Result<(), Error>)
        ensures
            match spec_advance(old(self)@, opt_string_view(next)) {
                Some(c) => r is Ok && final(self)@ == c,
                None => final(self)@ == old(self)@ && match r {
                    Err(Error::StatusText(code, msg)) => code == STATUS_LOOP_DETECTED && msg@
                        == spec_cap_message(),
                    Ok(_) => false,
                },
            },
            final(self).items() == old(self).items(),
    {
        proof {
            use_type_invariant(&*self);
        }
        match next {
            None => {
                self.next_url = None;
                Ok(())
            },
            Some(u) => {
                if self.followed_pages >= MAX_NEXT_PAGE_REQUESTS {
                    let digits = decimal_string(MAX_NEXT_PAGE_REQUESTS as u64);
                    let msg = concat3(
                        "Pagination safety cap of ",
                        digits.as_str(),
                        " next pages reached",
                    );
                    Err(Error::StatusText(STATUS_LOOP_DETECTED, msg))
                } else {
                    self.next_url = Some(u);
                    self.followed_pages = self.followed_pages + 1;
                    Ok(())
                }
            },
        }
    }

    /// Records a successful page: its `items` (else its `devices`) are added
    /// after the items collected so far, and the listing goes on to the
    /// `next` link of `link_header`, failing with `508 Loop Detected` when that
    /// link would pass the pagination cap.
    pub fn on_page(
        &mut self,
        link_header: Option<&str>,
        items: Option<Vec<T>>,
        devices: Option<Vec<T>>,
    ) -> (r: Result<(), Error>)
        ensures
            final(self).items() == old(self).items() + spec_page_items(items, devices),
            match spec_advance(old(self)@, spec_next_link(opt_view(link_header))) {
                Some(c) => r is Ok && final(self)@ == c,
                None => final(self)@ == old(self)@ && match r {
                    Err(Error::StatusText(code, msg)) => code == STATUS_LOOP_DETECTED && msg@
                        == spec_cap_message(),
                    Ok(_) => false,
                },
            },
    {
        proof {
            use_type_invariant(&*self);
        }
        let mut page = page_items(items, devices);
        let mut collected: Vec<T> = Vec::new();
        std::mem::swap(&mut collected, &mut self.items);
        collected.append(&mut page);
        self.items = collected;
        let next = match link_header {
            Some(h) => RestClient::extract_next_link_url(h),
            None => None,
        };
        self.advance(next)
    }

    /// The items of every recorded page, in page order.
    pub fn into_items(self) -> (r: Vec<T>)
        ensures
            r@ == self.items(),
    {
        self.items
    }
}

/// The items of one page: its `items`, else its `devices`, else none.
pub open spec fn spec_page_items<T>(items: Option<Vec<T>>, devices: Option<Vec<T>>) -> Seq<T> {
    match items {
        Some(v) => v@,
        None => match devices {
            Some(d) => d@,
            None => Seq::<T>::empty(),
        },
    }
}

/// The items of one page of a listing: its `items`, else its `devices`, else none.
pub fn page_items<T>(items: Option<Vec<T>>, devices: Option<Vec<T>>) -> (r: Vec<T>)
    ensures
        r@ == spec_page_items(items, devices),
{
    match items {
        Some(v) => v,
        None => match devices {
            Some(d) => d,
            None => Vec::new(),
        },
    }
}

/// Implements low level REST requests to be used internally by the library.
pub struct RestClient {
    /// Host prefix mapping for different API endpoints
    pub host_prefix: HostPrefixes,
    /// Underlying HTTP client
    pub web_client: reqwest::Client,
}

impl RestClient {
    /// Creates a `RestClient` with an empty host-prefix table and a new HTTP
    /// client; `None` when the HTTP client cannot be built (no TLS backend, or
    /// no system resolver configuration).
    pub fn try_new() -> (r: Option<RestClient>)
        ensures
            r matches Some(c) ==> c.host_prefix@ == Map::<Seq<char>, Seq<char>>::empty(),
    {
        match build_http_client() {
            Some(web_client) => Some(RestClient { host_prefix: HostPrefixes::new(), web_client }),
            None => None,
        }
    }

    /// Creates a `RestClient` with existing `host_prefix` and `web_client`.
    #[must_use]
    pub fn new_with(host_prefix: HostPrefixes, web_client: reqwest::Client) -> (r: RestClient)
        ensures
            r.host_prefix@ == host_prefix@,
            r.web_client == web_client,
    {
        RestClient { host_prefix, web_client }
    }

    /// The host prefix stored under `key`, or the default host prefix.
    fn lookup_prefix(&self, key: &str) -> (r: String)
        ensures
            r@ == spec_lookup_prefix(self.host_prefix@, key@),
    {
        match self.host_prefix.get(key) {
            Some(p) => p.clone(),
            None => REST_HOST_PREFIX.to_owned(),
        }
    }

    /// Gets the host prefix for a given host key.
    pub fn get_host_prefix(&self, host: Option<&str>, default_key: &str) -> (r: String)
        ensures
            r@ == spec_host_prefix(self.host_prefix@, opt_view(host), default_key@),
    {
        match host {
            Some(h) => h.to_owned(),
            None => self.lookup_prefix(default_key),
        }
    }

    /// The host prefix of a listing of `endpoint`.
    pub fn list_host_prefix(&self, host: Option<&str>, endpoint: &str) -> (r: String)
        ensures
            r@ == spec_list_host_prefix(self.host_prefix@, opt_view(host), endpoint@),
    {
        match host {
            Some(h) => h.to_owned(),
            None => match self.host_prefix.get(endpoint) {
                Some(p) => p.clone(),
                None => self.lookup_prefix("rest"),
            },
        }
    }

    /// The host prefix of a legacy request to `rest_method`.
    pub fn rest_method_prefix(&self, rest_method: &str) -> (r: String)
        ensures
            r@ == spec_rest_method_prefix(self.host_prefix@, rest_method@),
    {
        let url_trimmed = str_before_first(rest_method, '?');
        self.lookup_prefix(url_trimmed.as_str())
    }

    /// The URL of a request to the resource path `url` (GET with parameters,
    /// POST, PUT).
    pub fn path_url(&self, host: Option<&str>, url: &str) -> (r: String)
        ensures
            r@ == spec_host_prefix(self.host_prefix@, opt_view(host), "rest"@) + "/"@ + url@,
    {
        let host_prefix = self.get_host_prefix(host, "rest");
        concat3(host_prefix.as_str(), "/", url)
    }

    /// The URL of the resource `id` under `endpoint` (GET and DELETE of one
    /// resource).
    pub fn resource_url(&self, host: Option<&str>, endpoint: &str, id: &str) -> (r: String)
        ensures
            r@ == spec_host_prefix(self.host_prefix@, opt_view(host), "rest"@) + "/"@ + endpoint@
                + "/"@ + id@,
    {
        let host_prefix = self.get_host_prefix(host, "rest");
        let base = concat3(host_prefix.as_str(), "/", endpoint);
        concat3(base.as_str(), "/", id)
    }

    /// The URL of a legacy request to `rest_method`.
    pub fn rest_method_url(&self, rest_method: &str) -> (r: String)
        ensures
            r@ == spec_rest_method_prefix(self.host_prefix@, rest_method@) + "/"@ + rest_method@,
    {
        let prefix = self.rest_method_prefix(rest_method);
        concat3(prefix.as_str(), "/", rest_method)
    }

    /// The URL of the first page of a listing of `endpoint`.
    pub fn list_url(&self, host: Option<&str>, endpoint: &str) -> (r: String)
        ensures
            r@ == spec_list_host_prefix(self.host_prefix@, opt_view(host), endpoint@) + "/"@
                + endpoint@,
    {
        let host_prefix = self.list_host_prefix(host, endpoint);
        concat3(host_prefix.as_str(), "/", endpoint)
    }

    /// The error of a failed reply, given the `message` string read from it
    /// as JSON (`None` when there is none).
    pub fn error_from_message(status: u16, response_text: String, message: Option<String>) -> (r: Error)
        ensures
            match r {
                Error::StatusText(code, msg) => code == status && msg@ == spec_error_text_from(
                    status,
                    response_text@,
                    opt_string_view(message),
                ),
            },
    {
        if str_starts_with(response_text.as_str(), "<!DOCTYPE html>") || str_starts_with(
            response_text.as_str(),
            "<html",
        ) {
            let title = extract_html_title(response_text.as_str(), status);
            Error::StatusText(status, title)
        } else {
            match message {
                Some(m) => Error::StatusText(status, m),
                None => Error::StatusText(status, response_text),
            }
        }
    }

    /// Handles error responses from the API.
    pub fn handle_error_response(status: u16, response_text: String) -> (r: Error)
        ensures
            match r {
                Error::StatusText(code, msg) => code == status && msg@ == spec_error_text(
                    status,
                    response_text@,
                ),
            },
    {
        if str_starts_with(response_text.as_str(), "<!DOCTYPE html>") || str_starts_with(
            response_text.as_str(),
            "<html",
        ) {
            Self::error_from_message(status, response_text, None)
        } else {
            let message = json_str_field(response_text.as_str(), "message");
            Self::error_from_message(status, response_text, message)
        }
    }

    /// What to do with a reply: on success, the text to parse as JSON; on
    /// failure, the error it reports.
    pub fn interpret_response(status: u16, response_text: String) -> (r: Result<String, Error>)
        ensures
            spec_is_success(status) ==> (r matches Ok(t) && t@ == spec_success_body(response_text@)),
            !spec_is_success(status) ==> match r {
                Err(Error::StatusText(code, msg)) => code == status && msg@ == spec_error_text(
                    status,
                    response_text@,
                ),
                Ok(_) => false,
            },
    {
        if is_success_status(status) {
            if response_text.as_str().is_empty() {
                Ok(String::from_str("{}"))
            } else {
                Ok(response_text)
            }
        } else {
            Err(Self::handle_error_response(status, response_text))
        }
    }

    /// The message of an error reply that is the expected one for a user
    /// without teams, given the `message` string read from it as JSON; such
    /// an error is logged at trace level rather than as an error.
    pub fn expected_from_message(status: u16, url: &str, message: Option<String>) -> (r: Option<String>)
        ensures
            opt_string_view(r) == spec_expected_message(status, url@, opt_string_view(message)),
    {
        match message {
            Some(m) => {
                if status == STATUS_NOT_FOUND && str_contains(url, "/teams") && str_contains(
                    m.as_str(),
                    "Could not find teams",
                ) {
                    Some(m)
                } else {
                    None
                }
            },
            None => None,
        }
    }

    /// The message of an error reply that is the expected one for a user
    /// without teams (a `404` for a team listing whose JSON `message` says the
    /// teams could not be found); `None` for any other error.
    pub fn expected_error_message(status: u16, url: &str, response_text: &str) -> (r: Option<String>)
        ensures
            opt_string_view(r) == spec_expected_message(
                status,
                url@,
                spec_json_str_field(response_text@, "message"@),
            ),
    {
        let message = json_str_field(response_text, "message");
        Self::expected_from_message(status, url, message)
    }

    /// The URL of the `rel="next"` link of a `Link` header, if there is one.
    pub fn extract_next_link_url(link_header: &str) -> (r: Option<String>)
        ensures
            match r {
                Some(u) => spec_rel_link_uri(link_header@, "next"@) == Some(u@),
                None => spec_rel_link_uri(link_header@, "next"@) is None,
            },
    {
        rel_link_uri(link_header, "next")
    }
}

impl Clone for RestClient {
    fn clone(&self) -> (r: RestClient)
        ensures
            r.host_prefix@ == self.host_prefix@,
    {
        RestClient {
            host_prefix: self.host_prefix.clone(),
            web_client: clone_http_client(&self.web_client),
        }
    }
}

} // verus!
