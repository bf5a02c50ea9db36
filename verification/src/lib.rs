//! Verified core of the Basango news crawler.
//!
//! The library holds the crawler's rules: validation of identifiers and
//! ranges, article normalization, configuration checks, queue naming, run
//! progress accounting, retry and delivery decisions, and the parsing of
//! dates and listing metadata. Network, Redis and SQLite work is done by the
//! application around it, which hands plain values in and out.

pub mod articles;
mod bindings;
pub mod config;
pub mod config_check;
pub mod config_schema;
pub mod config_env;
pub mod domain;
pub mod error;
pub mod progress;
pub mod queue;
pub mod run_store;
pub mod markup;
pub mod outbox;
pub mod sources;
pub mod wordpress;
pub mod worker;
pub mod http;
pub mod execution;
pub mod cli;
pub mod status;
pub mod text;

pub use articles::{
    delivery_result_for_status, endpoint_url, ingest_outcome, ingest_step, is_retryable_status,
    normalize, normalize_categories, sanitize, DeliveryResult, DeliveryStatus, IngestStatus,
    IngestStep, OutboxStats, OutboxUpdate,
};
pub use domain::{
    Article, ArticleDraft, ArticleHash, ArticleMetadata, CrawlRequest, DateRange, DeliveryOutcome,
    DeliveryState, PageRange, RetryDecision, SourceId, UpdateDirection,
};
pub use error::CrawlError;
pub use text::{chars_of, decimal_string};
