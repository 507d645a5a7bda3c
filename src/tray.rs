//! The tray menu's texts in each supported language.

use vstd::prelude::*;
use crate::text::same_text;

verus! {

/// The tray menu's entries.
#[derive(Debug)]
pub struct TrayTexts {
    pub show_main: String,
    pub quit: String,
}

impl TrayTexts {
    /// English for `en`, Chinese for anything else.
    pub fn from_language(language: &str) -> (r: Self)
        ensures
            language@ == "en"@ ==> r.show_main@ == "Show Main Window"@ && r.quit@ == "Quit"@,
            language@ != "en"@ ==> r.show_main@ == "显示主界面"@ && r.quit@ == "退出应用"@,
    {
        if same_text(language, "en") {
            TrayTexts { show_main: "Show Main Window".to_owned(), quit: "Quit".to_owned() }
        } else {
            TrayTexts { show_main: "显示主界面".to_owned(), quit: "退出应用".to_owned() }
        }
    }
}

} // verus!
