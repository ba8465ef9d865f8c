//! Texts shown on tabs and lists: numbers in decimal, tab titles and the
//! names given to new layers and scenes.

use vstd::prelude::*;
use crate::project_generator::push_char;

verus! {

/// The digit character for `d` (below 10).
pub open spec fn digit_char(d: nat) -> char {
    (48 + d) as char
}

/// `n` written in decimal, without leading zeros.
pub open spec fn decimal(n: nat) -> Seq<char>
    decreases n,
{
    if n < 10 {
        seq![digit_char(n)]
    } else {
        decimal(n / 10).push(digit_char(n % 10))
    }
}

/// Appends `n` in decimal to `out`.
pub fn push_decimal(out: &mut String, n: usize)
    ensures
        final(out)@ == old(out)@ + decimal(n as nat),
    decreases n,
{
    if n >= 10 {
        push_decimal(out, n / 10);
    }
    let d: u8 = (n % 10) as u8;
    let c = (48u8 + d) as char;
    push_char(out, c);
    assert(old(out)@ + decimal(n as nat) =~= if n >= 10 { old(out)@ + decimal((n / 10) as nat) } else { old(out)@ }.push(c));
}

/// The title of a scene tab: a dot before the name when the scene has
/// unsaved changes.
pub open spec fn tab_title(name: Seq<char>, modified: bool) -> Seq<char> {
    if modified {
        "● "@ + name
    } else {
        name
    }
}

/// The title of the tab of a scene named `name`.
pub fn scene_tab_label(name: &str, is_modified: bool) -> (r: String)
    ensures
        r@ == tab_title(name@, is_modified),
{
    if is_modified {
        let mut title = String::from_str("● ");
        title.append(name);
        title
    } else {
        String::from_str(name)
    }
}

/// The name of a new scene tab opened when `open_count` tabs are open.
pub open spec fn untitled_tab_name(open_count: nat) -> Seq<char> {
    "Untitled "@ + decimal(open_count + 1)
}

/// The name of a new scene tab opened next to `open_count` open tabs:
/// "Untitled" and the number the new tab gets.
pub fn new_scene_name(open_count: usize) -> (r: String)
    requires
        open_count < usize::MAX,
    ensures
        r@ == untitled_tab_name(open_count as nat),
{
    let mut name = String::from_str("Untitled ");
    push_decimal(&mut name, open_count + 1);
    name
}

/// The name of a layer added when a level has `layer_count` layers.
pub open spec fn layer_name(layer_count: nat) -> Seq<char> {
    "Layer "@ + decimal(layer_count)
}

/// The name of the layer added next to `layer_count` layers: "Layer" and
/// the index it gets.
pub fn new_layer_name(layer_count: usize) -> (r: String)
    ensures
        r@ == layer_name(layer_count as nat),
{
    let mut name = String::from_str("Layer ");
    push_decimal(&mut name, layer_count);
    name
}

/// The label naming the active layer.
pub fn active_layer_label(name: &str) -> (r: String)
    ensures
        r@ == "Active: "@ + name@,
{
    let mut label = String::from_str("Active: ");
    label.append(name);
    label
}

/// The status-bar note on whether the active scene is saved.
pub fn save_state_label(is_modified: bool) -> (r: &'static str)
    ensures
        r == if is_modified {
            "● Modified"
        } else {
            "○ Saved"
        },
{
    if is_modified {
        "● Modified"
    } else {
        "○ Saved"
    }
}

/// The entry of the recent-projects menu at `index` for a project named
/// `name`: its number from 1, a dot, and the name.
pub fn recent_project_label(index: usize, name: &str) -> (r: String)
    requires
        index < usize::MAX,
    ensures
        r@ == decimal((index + 1) as nat) + ". "@ + name@,
{
    let mut label = String::new();
    push_decimal(&mut label, index + 1);
    label.append(". ");
    label.append(name);
    label
}

} // verus!
