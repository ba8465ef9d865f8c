//! Icon glyphs used on buttons and labels, and helpers that prefix a text
//! with an icon.

use vstd::prelude::*;
use vstd::string::*;

verus! {

/// Icon constants made of Unicode characters, so that no icon font is needed.
pub struct Icons;

impl Icons {
    // Toolbar actions
    pub const PLAY: &'static str = "▶";
    pub const BUILD: &'static str = "🔨";
    pub const STOP: &'static str = "⏹";
    pub const SAVE: &'static str = "💾";
    pub const FOLDER_OPEN: &'static str = "📁";
    // Scene and project actions
    pub const NEW: &'static str = "➕";
    pub const CLOSE: &'static str = "✕";
    pub const SETTINGS: &'static str = "⚙";
    // Editor tools
    pub const BRUSH: &'static str = "🖌";
    pub const ERASER: &'static str = "🧹";
    pub const BUCKET: &'static str = "🪣";
    pub const EYEDROPPER: &'static str = "💧";
    // Navigation
    pub const CHEVRON_RIGHT: &'static str = "›";
    pub const CHEVRON_DOWN: &'static str = "⌄";
    pub const ARROW_UP: &'static str = "↑";
    pub const ARROW_DOWN: &'static str = "↓";
    pub const ARROW_LEFT: &'static str = "←";
    pub const ARROW_RIGHT: &'static str = "→";
    // Scene objects
    pub const CAMERA: &'static str = "📷";
    pub const SPRITE: &'static str = "🖼";
    pub const LIGHT: &'static str = "💡";
    pub const AUDIO: &'static str = "🔊";
    pub const NODE: &'static str = "⬡";
    // Components
    pub const TRANSFORM: &'static str = "⛶";
    pub const PHYSICS: &'static str = "⚛";
    pub const SCRIPT: &'static str = "📄";
    pub const TILEMAP: &'static str = "⊞";
    // Status
    pub const SUCCESS: &'static str = "✓";
    pub const ERROR: &'static str = "✕";
    pub const WARNING: &'static str = "⚠";
    pub const INFO: &'static str = "ℹ";
    // File browser
    pub const FILE: &'static str = "📄";
    pub const FOLDER: &'static str = "📁";
    pub const FOLDER_CLOSED: &'static str = "📁";
    pub const FOLDER_OPEN_ALT: &'static str = "📂";
    // Inspector
    pub const EYE: &'static str = "👁";
    pub const EYE_CLOSED: &'static str = "🚫";
    pub const LOCK: &'static str = "🔒";
    pub const UNLOCK: &'static str = "🔓";
}

/// The text of a label made of `icon`, one space, then `text`.
pub open spec fn labelled(icon: Seq<char>, text: Seq<char>) -> Seq<char> {
    icon + seq![' '] + text
}

/// Prefixing a button or label text with an icon.
pub trait IconLabel: Sized {
    fn with_icon(self, icon: &str) -> String;
}

impl<'a> IconLabel for &'a str {
    fn with_icon(self, icon: &str) -> (r: String)
        ensures
            r@ == labelled(icon@, self@),
    {
        icon_label(icon, self)
    }
}

impl IconLabel for String {
    fn with_icon(self, icon: &str) -> (r: String)
        ensures
            r@ == labelled(icon@, self@),
    {
        icon_label(icon, self.as_str())
    }
}

/// A button label made of an icon and a text, separated by one space.
pub fn icon_label(icon: &str, text: &str) -> (r: String)
    ensures
        r@ == labelled(icon@, text@),
{
    let space = " ";
    proof {
        reveal_strlit(" ");
    }
    let r = String::from_str(icon).concat(space).concat(text);
    assert(r@ =~= labelled(icon@, text@));
    r
}

/// An icon-only label: the icon itself.
pub fn icon_only(icon: &str) -> (r: &str)
    ensures
        r@ == icon@,
{
    icon
}

} // verus!
