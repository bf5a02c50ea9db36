//! One error vocabulary for the crawler.
//!
//! Errors of the transport, storage and queue layers are carried as their
//! rendered message, so that the library stays free of those layers' types.

use vstd::prelude::*;

use crate::text::{append_str, decimal_string, decimal_text};

verus! {

#[derive(Debug, PartialEq, Eq)]
pub enum CrawlError {
    Configuration(String),
    SourceNotFound(String),
    InvalidSourceSelectors(String),
    InvalidArticle(String),
    ArticleOutOfDateRange { url: String },
    InvalidRange(String),
    HttpTransport(String),
    HttpStatus { status: u16, url: String, body: String },
    Sqlite(String),
    OutboxLockPoisoned,
    BullMq(String),
    Json(String),
    Io(String),
    Url(String),
    Queue(String),
}

/// `prefix + middle + suffix` as a new string.
pub fn concat3(prefix: &str, middle: &str, suffix: &str) -> (r: String)
    ensures
        r@ == prefix@ + middle@ + suffix@,
{
    let mut r = String::new();
    append_str(&mut r, prefix);
    append_str(&mut r, middle);
    append_str(&mut r, suffix);
    assert(r@ =~= prefix@ + middle@ + suffix@);
    r
}

/// The text each error displays.
pub open spec fn error_message(e: CrawlError) -> Seq<char> {
    match e {
        CrawlError::Configuration(m) => "configuration error: "@ + m@,
        CrawlError::SourceNotFound(s) => "source '"@ + s@ + "' was not found"@,
        CrawlError::InvalidSourceSelectors(m) => "invalid source selectors: "@ + m@,
        CrawlError::InvalidArticle(m) => "invalid article: "@ + m@,
        CrawlError::ArticleOutOfDateRange { url } => "article at "@ + url@
            + " is outside the requested date range"@,
        CrawlError::InvalidRange(m) => "invalid range: "@ + m@,
        CrawlError::HttpTransport(m) => "HTTP request failed: "@ + m@,
        CrawlError::HttpStatus { status, url, body } => "HTTP "@ + decimal_text(status as nat)
            + " from "@ + url@ + ": "@ + body@,
        CrawlError::Sqlite(m) => "SQLite outbox error: "@ + m@,
        CrawlError::OutboxLockPoisoned => "SQLite outbox became unavailable after a task panicked"@,
        CrawlError::BullMq(m) => "BullMQ error: "@ + m@,
        CrawlError::Json(m) => "JSON error: "@ + m@,
        CrawlError::Io(m) => "I/O error: "@ + m@,
        CrawlError::Url(m) => "URL error: "@ + m@,
        CrawlError::Queue(m) => "queue error: "@ + m@,
    }
}

impl CrawlError {
    /// The error's display text (what `to_string` gives in the application).
    pub fn message(&self) -> (r: String)
        ensures
            r@ == error_message(*self),
    {
        proof {
            reveal_strlit("");
        }
        match self {
            CrawlError::Configuration(m) => concat3("configuration error: ", m.as_str(), ""),
            CrawlError::SourceNotFound(s) => concat3("source '", s.as_str(), "' was not found"),
            CrawlError::InvalidSourceSelectors(m) => concat3(
                "invalid source selectors: ",
                m.as_str(),
                "",
            ),
            CrawlError::InvalidArticle(m) => concat3("invalid article: ", m.as_str(), ""),
            CrawlError::ArticleOutOfDateRange { url } => concat3(
                "article at ",
                url.as_str(),
                " is outside the requested date range",
            ),
            CrawlError::InvalidRange(m) => concat3("invalid range: ", m.as_str(), ""),
            CrawlError::HttpTransport(m) => concat3("HTTP request failed: ", m.as_str(), ""),
            CrawlError::HttpStatus { status, url, body } => {
                let code = decimal_string(*status as u64);
                let mut r = concat3("HTTP ", code.as_str(), " from ");
                append_str(&mut r, url.as_str());
                append_str(&mut r, ": ");
                append_str(&mut r, body.as_str());
                r
            },
            CrawlError::Sqlite(m) => concat3("SQLite outbox error: ", m.as_str(), ""),
            CrawlError::OutboxLockPoisoned => concat3(
                "SQLite outbox became unavailable after a task panicked",
                "",
                "",
            ),
            CrawlError::BullMq(m) => concat3("BullMQ error: ", m.as_str(), ""),
            CrawlError::Json(m) => concat3("JSON error: ", m.as_str(), ""),
            CrawlError::Io(m) => concat3("I/O error: ", m.as_str(), ""),
            CrawlError::Url(m) => concat3("URL error: ", m.as_str(), ""),
            CrawlError::Queue(m) => concat3("queue error: ", m.as_str(), ""),
        }
    }
}

} // verus!
