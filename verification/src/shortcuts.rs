//! Keyboard shortcuts of the desktop and the set it starts with.

use vstd::prelude::*;

verus! {

#[derive(Debug, Clone)]
pub struct Shortcut {
    pub shortcut_type: String,
    pub trigger: String,
    pub action: String,
    pub enabled: bool,
    pub linebreak: bool,
}

/// The trigger and action of each default shortcut, in order.
pub open spec fn default_bindings() -> Seq<(Seq<char>, Seq<char>)> {
    seq![
        ("Ctrl+Shift+C"@, "COPY"@),
        ("Ctrl+Shift+V"@, "PASTE"@),
        ("Ctrl+Tab"@, "NEXT_TAB"@),
        ("Ctrl+Shift+Tab"@, "PREVIOUS_TAB"@),
        ("Ctrl+Shift+S"@, "SETTINGS"@),
        ("Ctrl+Shift+K"@, "SHORTCUTS"@),
        ("Ctrl+Shift+F"@, "FUZZY_SEARCH"@),
        ("Alt+Space"@, "APP_LAUNCHER"@),
    ]
}

fn app_shortcut(trigger: &str, action: &str) -> (r: Shortcut)
    ensures
        r.shortcut_type@ == "app"@,
        r.trigger@ == trigger@,
        r.action@ == action@,
        r.enabled,
        !r.linebreak,
{
    Shortcut {
        shortcut_type: String::from_str("app"),
        trigger: String::from_str(trigger),
        action: String::from_str(action),
        enabled: true,
        linebreak: false,
    }
}

/// The shortcuts a new configuration starts with: application shortcuts,
/// all enabled, none followed by a line break.
pub fn default_shortcuts() -> (r: Vec<Shortcut>)
    ensures
        r@.len() == default_bindings().len(),
        forall|k: int|
            0 <= k < r@.len() ==> {
                &&& (#[trigger] r@[k]).shortcut_type@ == "app"@
                &&& r@[k].trigger@ == default_bindings()[k].0
                &&& r@[k].action@ == default_bindings()[k].1
                &&& r@[k].enabled
                &&& !r@[k].linebreak
            },
{
    let mut r: Vec<Shortcut> = Vec::new();
    r.push(app_shortcut("Ctrl+Shift+C", "COPY"));
    r.push(app_shortcut("Ctrl+Shift+V", "PASTE"));
    r.push(app_shortcut("Ctrl+Tab", "NEXT_TAB"));
    r.push(app_shortcut("Ctrl+Shift+Tab", "PREVIOUS_TAB"));
    r.push(app_shortcut("Ctrl+Shift+S", "SETTINGS"));
    r.push(app_shortcut("Ctrl+Shift+K", "SHORTCUTS"));
    r.push(app_shortcut("Ctrl+Shift+F", "FUZZY_SEARCH"));
    r.push(app_shortcut("Alt+Space", "APP_LAUNCHER"));
    r
}

} // verus!
