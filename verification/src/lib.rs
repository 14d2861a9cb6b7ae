//! Command-line flags, build orchestration decisions and the editor state
//! machine of a script runner, with their contracts.
use vstd::prelude::*;

pub mod text;
pub mod proc_flags;
pub mod cmd_args;
pub mod flags_text;
pub mod builder;
pub mod editor;
pub mod layout;

verus! {

} // verus!
