//! A peer-review reputation ledger.
//!
//! Identities submit bounded integer scores about one another. Each
//! identity's aggregate record (cumulative score plus review counters) lives
//! in a [`store::ReputationStore`], and the stateless
//! [`ledger::ReputationContract`] validates submissions, applies them, and
//! normalizes records into a bounded percentage for queries. Authentication
//! of the caller, durable persistence, and observability are the surrounding
//! execution environment's concern; the ledger assumes the caller was
//! authenticated before it runs.

pub mod ledger;
pub mod record;
pub mod store;
