//! Verified core of a repository community-metrics aggregator.
//!
//! The library models the decision logic of a paginated REST fetch engine
//! (pagination termination, rate-limit retry, partial results), the
//! extraction of user identities from fetched records, and the union-based
//! aggregation of those identities per repository and across repositories.
//! All network and process concerns live outside the library.

mod collect;
mod endpoint;
mod identity;
mod link;
mod orchestrate;
mod page;
mod record;

pub use collect::RepoPages;
pub use collect::RepoStats;
pub use collect::collect_stats;
pub use collect::extend_with_fork_logins;
pub use collect::lemma_fork_merge_order_independent;
pub use endpoint::EndpointKind;
pub use endpoint::Query;
pub use endpoint::endpoint_url;
pub use endpoint::fork_contributor_urls;
pub use endpoint::query_for;
pub use identity::IdentitySet;
pub use link::contains_substr;
pub use link::link_signals_next;
pub use orchestrate::lemma_merge_order_independent;
pub use orchestrate::merge_results;
pub use page::FetchOutcome;
pub use page::FetchStep;
pub use page::PageResponse;
pub use page::decide;
pub use page::run_fetch;
pub use record::Record;
pub use record::extend_with_issue_authors;
pub use record::extend_with_logins;
