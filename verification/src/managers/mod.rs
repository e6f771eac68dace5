pub mod dictionary;
pub mod knowledge;
pub mod prompt_profiles;
pub mod snippets;
pub mod wispr_import;
