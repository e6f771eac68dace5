//! Snippet records (spoken trigger → authored replacement).

use vstd::prelude::*;

verus! {

#[derive(Clone, Debug)]
pub struct NewSnippet {
    pub trigger: String,
    pub replacement: String,
    pub priority: i64,
    pub enabled: bool,
}

#[derive(Clone, Debug)]
pub struct SnippetRecord {
    pub id: String,
    pub trigger: String,
    pub replacement: String,
    pub priority: i64,
    pub enabled: bool,
    pub created_at_ms: i64,
    pub updated_at_ms: i64,
}

} // verus!
