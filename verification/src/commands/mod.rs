//! The command layer: request and response shapes the frontend sees, and
//! the decisions made before the storage layer is asked.

use vstd::prelude::*;

pub mod dictionary;
pub mod history;
pub mod notes;

verus! {

/// Marker state recording that the keyboard shortcuts were initialized.
pub struct ShortcutsInitialized;

} // verus!
