//! Provides functions used for outputting to `stdout`.

use vstd::prelude::*;
use crate::output::link_text;

verus! {

/// Shortens URLs to `[link]` with OSC8 ANSI styled hyperlinks
pub fn format_url(url: &Option<String>) -> (text: String)
    ensures
        text@ == link_text(url.deep_view()),
{
    match url {
        Some(url) => {
            let mut text = String::from_str("\x1B]8;;");
            text.append(url.as_str());
            text.append("\x1B\\");
            text.append("[link]");
            text.append("\x1B]8;;\x1B\\");
            text
        },
        None => String::new(),
    }
}

} // verus!
