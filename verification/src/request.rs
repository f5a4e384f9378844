//! What is sent: the addresses of the two endpoints, the header that the API
//! demands of every client, and the cookies that carry a session.

use crate::decimal::{
    decimal, digit_value, lemma_decimal_is_injective, lemma_decimal_shape,
    lemma_digits_end_at_mark, push_decimal,
};
use vstd::prelude::*;
use vstd::string::StringExecFns;

verus! {

/// The address under which the session cookies are filed.
pub const API_ORIGIN: &'static str = "https://nvapi.nicovideo.jp/";

/// The name of the header that identifies the client to the API.
pub const FRONTEND_ID_HEADER: &'static str = "X-Frontend-Id";

/// The value that the API expects in that header.
pub const FRONTEND_ID: &'static str = "6";

/// The number of items asked for per page when a whole mylist is fetched.
pub const PAGE_SIZE: usize = 100;

/// The address that lists the user's mylists, each with at most
/// `sample_item_count` sample items.
pub open spec fn mylists_url_text(sample_item_count: nat) -> Seq<char> {
    "https://nvapi.nicovideo.jp/v1/users/me/mylists?sampleItemCount="@ + decimal(
        sample_item_count,
    )
}

/// The address of page `page` (counted from 1) of mylist `id`, with
/// `page_size` items to the page.
pub open spec fn mylist_url_text(id: nat, page_size: nat, page: nat) -> Seq<char> {
    "https://nvapi.nicovideo.jp/v1/users/me/mylists/"@ + decimal(id) + "?pageSize="@ + decimal(
        page_size,
    ) + "&page="@ + decimal(page)
}

/// Two texts behind the same beginning are equal when the wholes are.
proof fn lemma_same_beginning(beginning: Seq<char>, a: Seq<char>, b: Seq<char>)
    requires
        beginning + a == beginning + b,
    ensures
        a == b,
{
    assert((beginning + a).len() == beginning.len() + a.len());
    assert((beginning + b).len() == beginning.len() + b.len());
    assert(a.len() == b.len());
    assert forall|i: int| 0 <= i < a.len() implies a[i] == b[i] by {
        assert((beginning + a)[beginning.len() + i] == a[i]);
        assert((beginning + b)[beginning.len() + i] == b[i]);
    }
    assert(a =~= b);
}

/// The address of the listing names its sample count: two counts with the
/// same address are equal.
pub proof fn lemma_mylists_url_names_count(count: nat, other: nat)
    requires
        mylists_url_text(count) == mylists_url_text(other),
    ensures
        count == other,
{
    lemma_same_beginning(
        "https://nvapi.nicovideo.jp/v1/users/me/mylists?sampleItemCount="@,
        decimal(count),
        decimal(other),
    );
    lemma_decimal_is_injective(count, other);
}

/// The address of a page names its request: two requests with the same
/// address ask for the same page of the same mylist with the same page
/// size.
pub proof fn lemma_mylist_url_names_request(
    id: nat,
    page_size: nat,
    page: nat,
    other_id: nat,
    other_page_size: nat,
    other_page: nat,
)
    requires
        mylist_url_text(id, page_size, page) == mylist_url_text(
            other_id,
            other_page_size,
            other_page,
        ),
    ensures
        id == other_id,
        page_size == other_page_size,
        page == other_page,
{
    reveal_strlit("?pageSize=");
    reveal_strlit("&page=");
    let beginning = "https://nvapi.nicovideo.jp/v1/users/me/mylists/"@;
    let size_mark = "?pageSize="@;
    let page_mark = "&page="@;
    let after_size = decimal(page_size) + (page_mark + decimal(page));
    let other_after_size = decimal(other_page_size) + (page_mark + decimal(other_page));
    let after_id = decimal(id) + (size_mark + after_size);
    let other_after_id = decimal(other_id) + (size_mark + other_after_size);
    assert(mylist_url_text(id, page_size, page) =~= beginning + after_id);
    assert(mylist_url_text(other_id, other_page_size, other_page) =~= beginning
        + other_after_id);
    lemma_same_beginning(beginning, after_id, other_after_id);
    lemma_decimal_shape(id);
    lemma_decimal_shape(other_id);
    lemma_decimal_shape(page_size);
    lemma_decimal_shape(other_page_size);
    assert(digit_value('?').is_none());
    assert(digit_value('&').is_none());
    assert(size_mark[0] == '?');
    assert(page_mark[0] == '&');
    assert((size_mark + after_size)[0] == '?');
    assert((size_mark + other_after_size)[0] == '?');
    lemma_digits_end_at_mark(
        decimal(id),
        size_mark + after_size,
        decimal(other_id),
        size_mark + other_after_size,
    );
    lemma_decimal_is_injective(id, other_id);
    lemma_same_beginning(size_mark, after_size, other_after_size);
    assert((page_mark + decimal(page))[0] == '&');
    assert((page_mark + decimal(other_page))[0] == '&');
    lemma_digits_end_at_mark(
        decimal(page_size),
        page_mark + decimal(page),
        decimal(other_page_size),
        page_mark + decimal(other_page),
    );
    lemma_decimal_is_injective(page_size, other_page_size);
    lemma_same_beginning(page_mark, decimal(page), decimal(other_page));
    lemma_decimal_is_injective(page, other_page);
}

/// Builds the address that lists the user's mylists, as text.
pub fn mylists_url_string(sample_item_count: usize) -> (text: String)
    ensures
        text@ == mylists_url_text(sample_item_count as nat),
{
    let mut text = String::from_str(
        "https://nvapi.nicovideo.jp/v1/users/me/mylists?sampleItemCount=",
    );
    push_decimal(&mut text, sample_item_count);
    text
}

/// Builds the address of one page of one mylist, as text. Neither the page
/// nor the page size is checked: the server decides what they mean.
pub fn mylist_url_string(id: usize, page_size: usize, page: usize) -> (text: String)
    ensures
        text@ == mylist_url_text(id as nat, page_size as nat, page as nat),
{
    let mut text = String::from_str("https://nvapi.nicovideo.jp/v1/users/me/mylists/");
    push_decimal(&mut text, id);
    text.append("?pageSize=");
    push_decimal(&mut text, page_size);
    text.append("&page=");
    push_decimal(&mut text, page);
    text
}

/// `reqwest::Url`, an absolute URL in parsed form. Nothing of it is visible
/// here but its text, under the name [`url_str`].
#[verifier::external_type_specification]
#[verifier::external_body]
pub struct ExUrl(reqwest::Url);

/// The text of a parsed URL: what `reqwest::Url::as_str` returns for it.
pub uninterp spec fn url_str(url: reqwest::Url) -> Seq<char>;

/// What `reqwest::Url::parse` makes of a text: the text of the URL that it
/// returns, or nothing where it refuses the text.
pub uninterp spec fn url_parse(text: Seq<char>) -> Option<Seq<char>>;

/// Whether `url` is what parsing `text` gives: the parsed URL, or nothing
/// where the text is refused.
pub open spec fn is_parse_of(url: Option<reqwest::Url>, text: Seq<char>) -> bool {
    match url {
        Some(url) => url_parse(text) == Some(url_str(url)),
        None => url_parse(text).is_none(),
    }
}

/// Calls `reqwest::Url::parse`. The contract claims only that parsing
/// depends on the text alone: whether the text is accepted, and the URL
/// that comes of it, are the same for the same text. What the parser
/// accepts is not stated.
#[verifier::external_body]
fn parse_url(text: &str) -> (url: Option<reqwest::Url>)
    ensures
        match url {
            Some(url) => url_parse(text@) == Some(url_str(url)),
            None => url_parse(text@).is_none(),
        },
{
    reqwest::Url::parse(text).ok()
}

/// Builds the address that lists the user's mylists, parsed for the
/// transport. `None` only if the parser refuses the address.
pub fn mylists_url(sample_item_count: usize) -> (url: Option<reqwest::Url>)
    ensures
        is_parse_of(url, mylists_url_text(sample_item_count as nat)),
{
    let text = mylists_url_string(sample_item_count);
    parse_url(text.as_str())
}

/// Builds the address of one page of one mylist, parsed for the transport.
/// `None` only if the parser refuses the address.
pub fn mylist_url(id: usize, page_size: usize, page: usize) -> (url: Option<reqwest::Url>)
    ensures
        is_parse_of(url, mylist_url_text(id as nat, page_size as nat, page as nat)),
{
    let text = mylist_url_string(id, page_size, page);
    parse_url(text.as_str())
}

/// A request for one page of one mylist.
#[derive(Debug, Clone, Copy, PartialEq, Eq)]
pub struct PageRequest {
    pub id: usize,
    pub page_size: usize,
    /// The page, counted from 1.
    pub page: usize,
}

impl PageRequest {
    /// The address that this request is sent to.
    pub open spec fn url_text(self) -> Seq<char> {
        mylist_url_text(self.id as nat, self.page_size as nat, self.page as nat)
    }

    /// Builds the address that this request is sent to, parsed for the
    /// transport. `None` only if the parser refuses the address.
    pub fn url(&self) -> (url: Option<reqwest::Url>)
        ensures
            is_parse_of(url, self.url_text()),
    {
        mylist_url(self.id, self.page_size, self.page)
    }
}

/// The two opaque tokens that identify a signed-in user.
#[derive(Debug, Clone, PartialEq, Eq)]
pub struct Session {
    pub user_session: String,
    pub user_session_secure: String,
}

impl Session {
    /// The cookie that carries the first token.
    pub open spec fn user_session_cookie(self) -> Seq<char> {
        "user_session="@ + self.user_session@
    }

    /// The cookie that carries the second token.
    pub open spec fn user_session_secure_cookie(self) -> Seq<char> {
        "user_session_secure="@ + self.user_session_secure@
    }

    /// The two cookies of this session, each as `name=value`, to be filed
    /// under [`API_ORIGIN`] in a cookie store made for the one call.
    pub fn cookies(&self) -> (pair: (String, String))
        ensures
            pair.0@ == self.user_session_cookie(),
            pair.1@ == self.user_session_secure_cookie(),
    {
        let mut first = String::from_str("user_session=");
        first.append(self.user_session.as_str());
        let mut second = String::from_str("user_session_secure=");
        second.append(self.user_session_secure.as_str());
        (first, second)
    }
}

} // verus!
