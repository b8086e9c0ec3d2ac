//! A client library for TypeSafe's System One API: typed questions, the
//! answers that come back, and the rules by which requests are retried.
//!
//! Send `state` and typed [`Question`]s (Noul, Choice, Score) to a Jev model
//! and get back typed answers your code can act on directly.

pub mod answer;
pub mod client;
pub mod duration;
pub mod error;
pub mod header;
pub mod order;
pub mod outside;
pub mod question;
pub mod retry;

pub use answer::{find_entry, ModelCard, ModelsResponse, Usage};
pub use client::TypeSafeClient;
pub use duration::Duration;
pub use error::{to_error, Error};
pub use question::{ChoiceCriteria, NoulCriteria, Question, Text};
pub use retry::{Reply, RetryPolicy, RetryStep};
