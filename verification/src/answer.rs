//! What comes back from the API: token usage, the catalogue of models, and
//! the lookup of an answer by the id its question was sent under.

use crate::order::{compare_keys, KeyOrder};
use vstd::prelude::*;

verus! {

/// The tokens that a request consumed.
#[derive(Debug, Clone, Copy, PartialEq, Eq, Structural)]
pub struct Usage {
    pub input_tokens: u64,
    pub output_tokens: u64,
}

/// A model that the account can send in the `model` field.
#[derive(Debug, Clone)]
pub struct ModelCard {
    pub name: String,
    pub description: String,
    pub release_date: String,
}

/// The response of `GET /v1/models`.
#[derive(Debug, Clone)]
pub struct ModelsResponse {
    pub models: Vec<ModelCard>,
}

/// The place of the first entry of `entries` whose id is `id`: `None`
/// where no entry has that id. Answers come back keyed by the ids their
/// questions were sent under, in the order the API gave them.
pub fn find_entry<V>(entries: &Vec<(String, V)>, id: &str) -> (r: Option<usize>)
    ensures
        match r {
            Some(i) => {
                &&& i < entries@.len()
                &&& entries@[i as int].0@ == id@
                &&& forall|j: int| 0 <= j < i ==> #[trigger] entries@[j].0@ != id@
            },
            None => forall|j: int| 0 <= j < entries@.len() ==> #[trigger] entries@[j].0@ != id@,
        },
{
    let mut i: usize = 0;
    while i < entries.len()
        invariant
            0 <= i <= entries@.len(),
            forall|j: int| 0 <= j < i ==> #[trigger] entries@[j].0@ != id@,
        decreases entries.len() - i,
    {
        if compare_keys(entries[i].0.as_str(), id) == KeyOrder::Same {
            return Some(i);
        }
        i += 1;
    }
    None
}

} // verus!
