//! One node of a filesystem-usage tree: how much an entry accounts for under
//! the active size mode, with extension filtering, hard-link identity and a
//! total order for ranked output.
use vstd::prelude::*;

pub mod extension;
pub mod node;
pub mod text;

verus! {

} // verus!
