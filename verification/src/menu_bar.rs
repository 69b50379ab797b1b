use vstd::prelude::*;

use crate::text::text_eq;

verus! {

/// The application menu: one entry that opens the manual in the browser.
pub struct MenuBar;

/// The label of the menu entry that opens the manual.
pub open spec fn manual_choice() -> Seq<char> {
    "Open Manual in Browser"@
}

/// Where the manual lies.
pub open spec fn manual_url() -> Seq<char> {
    "https://github.com/ddno/tim/blob/main/README.md"@
}

impl MenuBar {
    /// The menu path of the entry: the entry under "Help", with `H` as its shortcut.
    pub fn help_entry_path() -> (p: String)
        ensures
            p@ == "&Help/"@ + manual_choice(),
    {
        let mut p = String::from_str("&Help/");
        p.append("Open Manual in Browser");
        p
    }

    /// The page to open when the entry `choice` is picked: the manual for the one
    /// entry of the menu, nothing for anything else.
    pub fn url_for_choice(choice: Option<&str>) -> (url: Option<&'static str>)
        ensures
            match choice {
                Some(c) if c@ == manual_choice() => url is Some && url->0@ == manual_url(),
                _ => url is None,
            },
    {
        match choice {
            Some(value) => {
                if text_eq(value, "Open Manual in Browser") {
                    Some("https://github.com/ddno/tim/blob/main/README.md")
                } else {
                    None
                }
            },
            None => None,
        }
    }
}

/// The one menu entry reads "Open Manual in Browser" and opens the README of the
/// project on GitHub.
pub proof fn lemma_manual_entry()
    ensures
        manual_choice() == "Open Manual in Browser"@,
        manual_url() == "https://github.com/ddno/tim/blob/main/README.md"@,
{
}

} // verus!
