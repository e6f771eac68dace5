pub mod captures;
pub mod deliveries;
pub mod dictionary;
pub mod exports;
pub mod notes;
pub mod representations;
pub mod search;
pub mod snippets;
pub mod transcriptions;
