//! The keyboard shortcuts shown in the help panel.

use vstd::prelude::*;
use crate::toolchains::Platform;

verus! {

/// A shortcut and what it does.
#[derive(Debug)]
pub struct ShortcutHelp {
    pub key: String,
    pub description: String,
}

/// The modifier key's name: `⌘` on macOS, `Ctrl` elsewhere.
pub open spec fn modifier_text(platform: Platform) -> Seq<char> {
    if platform == Platform::MacOs {
        "⌘"@
    } else {
        "Ctrl"@
    }
}

fn key(platform: Platform, mac: &str, other: &str) -> (r: String)
    ensures
        r@ == (if platform == Platform::MacOs { mac@ } else { other@ }),
{
    if platform == Platform::MacOs {
        mac.to_owned()
    } else {
        other.to_owned()
    }
}

/// Refresh, publish and settings, with the platform's modifier key.
pub fn get_shortcuts_help(platform: Platform) -> (r: Vec<ShortcutHelp>)
    ensures
        r@.len() == 3,
        r@[0].key@ == (if platform == Platform::MacOs { "⌘ R"@ } else { "Ctrl R"@ }),
        r@[1].key@ == (if platform == Platform::MacOs { "⌘ P"@ } else { "Ctrl P"@ }),
        r@[2].key@ == (if platform == Platform::MacOs { "⌘ ,"@ } else { "Ctrl ,"@ }),
        r@[0].description@ == "刷新项目"@,
        r@[1].description@ == "执行发布"@,
        r@[2].description@ == "打开设置"@,
{
    let mut v: Vec<ShortcutHelp> = Vec::new();
    v.push(ShortcutHelp { key: key(platform, "⌘ R", "Ctrl R"), description: "刷新项目".to_owned() });
    v.push(ShortcutHelp { key: key(platform, "⌘ P", "Ctrl P"), description: "执行发布".to_owned() });
    v.push(ShortcutHelp { key: key(platform, "⌘ ,", "Ctrl ,"), description: "打开设置".to_owned() });
    v
}

} // verus!
