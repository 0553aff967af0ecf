//! ZhipuKit: the logic of a desktop companion for Zhipu's coding plan and
//! of the coding assistant's status line that shows the plan's quota.
//!
//! - `settings`: reading and rewriting the coding assistant's `settings.json`
//! - `quota`: the API's replies, the quota figures and their cache
//! - `statusline`: the status line's segments and texts
//! - `context`: what the coding assistant passes to the status line
//! - `detect`: what the app makes of the programs it runs
//! - `plugin`: where the status-line program takes its quota figures from
//! - `utils`: API addresses, the usage bar, elapsed time
//! - `window`: decisions of the desktop window
//! - `json`, `text`, `ansi`: the document model and text building blocks
use vstd::prelude::*;

pub mod ansi;
pub mod context;
pub mod detect;
pub mod json;
pub mod plugin;
pub mod quota;
pub mod settings;
pub mod statusline;
pub mod text;
pub mod utils;
pub mod window;

verus! {

} // verus!
