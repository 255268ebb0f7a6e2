//! The decision logic of a webview command-line tool: where the page comes
//! from, how the page's single message back is read, how file pages are
//! served, and which exit code each outcome gets.

pub mod assets;
pub mod bridge;
pub mod cli;
pub mod input;
pub mod paths;
pub mod run;
pub mod text;

use vstd::prelude::*;

verus! {

} // verus!
