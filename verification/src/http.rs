//! The transport policy around HTTP requests: which statuses are retried,
//! how a `Retry-After` header is read, which user agent is sent, and how an
//! unsuccessful response becomes an error.

use vstd::prelude::*;

use crate::bindings::{http_date_of, lossy_text_of, parse_http_date, random_below, utf8_lossy};
use crate::error::CrawlError;
use crate::text::{chars_of, owned, parse_u64, parse_unsigned, string_from_range};

verus! {

// --- Statuses and retries ------------------------------------------------------------

/// The statuses worth another attempt.
pub open spec fn transient_status(status: u16) -> bool {
    status == 408 || status == 425 || status == 429 || status == 500 || status == 502 || status == 503
        || status == 504
}

pub fn is_transient(status: u16) -> (r: bool)
    ensures
        r == transient_status(status),
{
    status == 408 || status == 425 || status == 429 || status == 500 || status == 502 || status == 503
        || status == 504
}

/// Whether a status is a success (2xx).
pub fn is_success_status(status: u16) -> (r: bool)
    ensures
        r == (200 <= status && status <= 299),
{
    200 <= status && status <= 299
}

/// The attempts a request gets: the first and each retry.
pub fn max_attempts(max_retries: u32) -> (r: u64)
    ensures
        r == max_retries + 1,
{
    max_retries as u64 + 1
}

/// After a response: retry a transient status unless this was the last
/// attempt (`attempt` counts from zero).
pub fn retry_response(status: u16, attempt: u64, max_attempts: u64) -> (r: bool)
    ensures
        r == (transient_status(status) && attempt + 1 < max_attempts),
{
    is_transient(status) && attempt < max_attempts && attempt + 1 < max_attempts
}

/// After a transport error: retry unless this was the last attempt.
pub fn retry_transport_error(attempt: u64, max_attempts: u64) -> (r: bool)
    ensures
        r == (attempt + 1 < max_attempts),
{
    attempt < max_attempts && attempt + 1 < max_attempts
}

// --- Retry-After ---------------------------------------------------------------------

/// The wait a `Retry-After` value asks for, in nanoseconds: a number of
/// seconds, or the time until an HTTP date (zero once it has passed); `now`
/// is in nanoseconds since the Unix epoch.
pub open spec fn retry_after_of(value: Seq<char>, now: u128) -> Option<u128> {
    match parse_unsigned(value, u64::MAX as int) {
        Some(s) => Some((s * 1_000_000_000) as u128),
        None => match http_date_of(value) {
            Some(t) => if t * 1_000_000_000 >= now {
                Some((t * 1_000_000_000 - now) as u128)
            } else {
                Some(0)
            },
            None => None,
        },
    }
}

pub fn parse_retry_after(value: &str, now: u128) -> (r: Option<u128>)
    ensures
        r == retry_after_of(value@, now),
{
    if let Some(seconds) = parse_u64(value) {
        return Some(seconds as u128 * 1_000_000_000);
    }
    match parse_http_date(value) {
        Some(t) => {
            let target = t as u128 * 1_000_000_000;
            if target >= now {
                Some(target - now)
            } else {
                Some(0)
            }
        },
        None => None,
    }
}

/// The wait before a retry when the server's `Retry-After` is honoured and
/// readable; `None` leaves the wait to the backoff.
pub fn retry_after_delay(respect_retry_after: bool, header: Option<&str>, now: u128) -> (r: Option<u128>)
    ensures
        !respect_retry_after ==> r is None,
        respect_retry_after && header is None ==> r is None,
        respect_retry_after && header is Some ==> r == retry_after_of(header->Some_0@, now),
{
    if !respect_retry_after {
        return None;
    }
    match header {
        Some(h) => parse_retry_after(h, now),
        None => None,
    }
}

// --- User agents ---------------------------------------------------------------------

/// The browser user agents a rotating client picks from.
pub open spec fn browser_user_agents() -> Seq<Seq<char>> {
    seq![
        "Mozilla/5.0 (Macintosh; Intel Mac OS X 10_15_7) AppleWebKit/537.36 Chrome/131 Safari/537.36"@,
        "Mozilla/5.0 (Windows NT 10.0; Win64; x64) AppleWebKit/537.36 Chrome/131 Safari/537.36"@,
        "Mozilla/5.0 (X11; Linux x86_64) AppleWebKit/537.36 Chrome/131 Safari/537.36"@,
        "Mozilla/5.0 (iPhone; CPU iPhone OS 18_1 like Mac OS X) AppleWebKit/605.1.15 Mobile/15E148"@,
    ]
}

/// The user agent Open Graph pages are fetched with.
pub fn open_graph_user_agent() -> (r: &'static str)
    ensures
        r@ == "facebookexternalhit/1.1 (+http://www.facebook.com/externalhit_uatext.php)"@,
{
    "facebookexternalhit/1.1 (+http://www.facebook.com/externalhit_uatext.php)"
}

fn browser_user_agent(index: usize) -> (r: &'static str)
    requires
        index < 4,
    ensures
        r@ == browser_user_agents()[index as int],
{
    if index == 0 {
        "Mozilla/5.0 (Macintosh; Intel Mac OS X 10_15_7) AppleWebKit/537.36 Chrome/131 Safari/537.36"
    } else if index == 1 {
        "Mozilla/5.0 (Windows NT 10.0; Win64; x64) AppleWebKit/537.36 Chrome/131 Safari/537.36"
    } else if index == 2 {
        "Mozilla/5.0 (X11; Linux x86_64) AppleWebKit/537.36 Chrome/131 Safari/537.36"
    } else {
        "Mozilla/5.0 (iPhone; CPU iPhone OS 18_1 like Mac OS X) AppleWebKit/605.1.15 Mobile/15E148"
    }
}

/// The configured user agent, or with rotation one of the browser user
/// agents chosen at random.
pub fn choose_user_agent(rotate: bool, fallback: &str) -> (r: String)
    ensures
        !rotate ==> r@ == fallback@,
        rotate ==> browser_user_agents().contains(r@),
{
    if !rotate {
        return owned(fallback);
    }
    let index = random_below(4);
    let agent = browser_user_agent(index);
    assert(browser_user_agents()[index as int] == agent@);
    owned(agent)
}

// --- Responses -----------------------------------------------------------------------

/// A buffered response: status, final URL and body bytes.
#[derive(Debug, Clone, PartialEq, Eq)]
pub struct HttpResponse {
    pub status: u16,
    pub url: String,
    pub body: Vec<u8>,
}

/// How many characters of a body an HTTP status error keeps.
pub const ERROR_BODY_CHARS: usize = 1024;

impl HttpResponse {
    pub fn is_success(&self) -> (r: bool)
        ensures
            r == (200 <= self.status && self.status <= 299),
    {
        is_success_status(self.status)
    }

    /// The body decoded as UTF-8, invalid sequences replaced.
    pub fn body_lossy(&self) -> (r: String)
        ensures
            r@ == lossy_text_of(self.body@),
    {
        utf8_lossy(self.body.as_slice())
    }

    /// The body as text, decoded leniently.
    pub fn text(&self) -> (r: Result<String, CrawlError>)
        ensures
            r matches Ok(t) && t@ == lossy_text_of(self.body@),
    {
        Ok(self.body_lossy())
    }

    /// A successful response is kept; any other status becomes an HTTP
    /// status error with the URL and the first 1024 characters of the body.
    pub fn require_success(self) -> (r: Result<HttpResponse, CrawlError>)
        ensures
            (200 <= self.status && self.status <= 299) ==> r == Ok::<HttpResponse, CrawlError>(self),
            !(200 <= self.status && self.status <= 299) ==> (r matches Err(
                CrawlError::HttpStatus { status, url, body },
            ) && status == self.status && url@ == self.url@ && body@ == lossy_text_of(self.body@).take(
                if lossy_text_of(self.body@).len() < 1024 {
                    lossy_text_of(self.body@).len() as int
                } else {
                    1024
                },
            )),
    {
        if self.is_success() {
            return Ok(self);
        }
        let text = self.body_lossy();
        let v = chars_of(text.as_str());
        let end = if v.len() < ERROR_BODY_CHARS {
            v.len()
        } else {
            ERROR_BODY_CHARS
        };
        let body = string_from_range(&v, 0, end);
        assert(v@.subrange(0, end as int) =~= v@.take(end as int));
        Err(CrawlError::HttpStatus { status: self.status, url: owned(self.url.as_str()), body })
    }
}

} // verus!
