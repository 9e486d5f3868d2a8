//! XDG `.desktop` files as the launcher reads them: the `[Desktop Entry]`
//! section's name, command, icon, categories, comment and flags.

use crate::text::{chars_eq_ignore_ascii_case, chars_eq_str, chars_of, clean_exec, clean_exec_spec, eq_ignore_ascii_case, lines, lines_of, split_nonempty, split_nonempty_spec, split_once, split_once_chars, string_of, trim, trim_chars, views};
use vstd::prelude::*;

verus! {

/// An application found in a desktop file.
#[derive(Debug, Clone)]
pub struct AppEntry {
    pub name: String,
    /// The `Exec` command line (the field is called `exec` in the file format).
    pub command: String,
    pub icon: Option<String>,
    pub categories: Vec<String>,
    pub comment: Option<String>,
    pub no_display: bool,
    pub terminal: bool,
}

/// What has been read of a desktop file so far.
pub struct DesktopFields {
    pub in_entry: bool,
    pub name: Option<Seq<char>>,
    pub command: Option<Seq<char>>,
    pub icon: Option<Seq<char>>,
    pub categories: Seq<Seq<char>>,
    pub comment: Option<Seq<char>>,
    pub no_display: bool,
    pub terminal: bool,
}

pub open spec fn fields_start() -> DesktopFields {
    DesktopFields {
        in_entry: false,
        name: None,
        command: None,
        icon: None,
        categories: Seq::empty(),
        comment: None,
        no_display: false,
        terminal: false,
    }
}

/// The effect of one `key=value` line inside the `[Desktop Entry]` section.
pub open spec fn apply_field(st: DesktopFields, key: Seq<char>, value: Seq<char>) -> DesktopFields {
    if key == "Name"@ {
        DesktopFields { name: Some(trim(value)), ..st }
    } else if key == "Exec"@ {
        DesktopFields { command: Some(clean_exec_spec(value)), ..st }
    } else if key == "Icon"@ {
        DesktopFields { icon: Some(trim(value)), ..st }
    } else if key == "Categories"@ {
        DesktopFields { categories: split_nonempty_spec(value, ';'), ..st }
    } else if key == "Comment"@ {
        DesktopFields { comment: Some(trim(value)), ..st }
    } else if key == "NoDisplay"@ {
        DesktopFields { no_display: eq_ignore_ascii_case(trim(value), "true"@), ..st }
    } else if key == "Terminal"@ {
        DesktopFields { terminal: eq_ignore_ascii_case(trim(value), "true"@), ..st }
    } else {
        st
    }
}

/// The effect of one line: blank lines and comments are skipped, a section
/// header opens or closes the desktop entry section, and inside it a line with
/// `=` sets the field named before the `=`.
pub open spec fn desktop_step(st: DesktopFields, raw: Seq<char>) -> DesktopFields {
    let line = trim(raw);
    if line.len() == 0 || line[0] == '#' {
        st
    } else if line == "[Desktop Entry]"@ {
        DesktopFields { in_entry: true, ..st }
    } else if line[0] == '[' {
        DesktopFields { in_entry: false, ..st }
    } else if !st.in_entry {
        st
    } else {
        match split_once(line, '=') {
            Some((k, v)) => apply_field(st, trim(k), v),
            None => st,
        }
    }
}

pub open spec fn desktop_fields(ls: Seq<Seq<char>>) -> DesktopFields
    decreases ls.len(),
{
    if ls.len() == 0 {
        fields_start()
    } else {
        desktop_step(desktop_fields(ls.drop_last()), ls.last())
    }
}

/// An entry as plain values: name, command, icon, categories, comment, and
/// the no-display and terminal flags.
pub type EntryView = (
    Seq<char>,
    Seq<char>,
    Option<Seq<char>>,
    Seq<Seq<char>>,
    Option<Seq<char>>,
    bool,
    bool,
);

/// The view of an entry.
pub open spec fn entry_view(e: AppEntry) -> EntryView {
    (
        e.name@,
        e.command@,
        match e.icon {
            Some(s) => Some(s@),
            None => None,
        },
        views(e.categories@),
        match e.comment {
            Some(s) => Some(s@),
            None => None,
        },
        e.no_display,
        e.terminal,
    )
}

/// The application that a desktop file describes: `None` where the desktop
/// entry section names no `Name` or no `Exec`.
pub open spec fn desktop_entry_spec(content: Seq<char>) -> Option<
    (Seq<char>, Seq<char>, Option<Seq<char>>, Seq<Seq<char>>, Option<Seq<char>>, bool, bool),
> {
    let f = desktop_fields(lines_of(content));
    if f.name is Some && f.command is Some {
        Some((f.name->0, f.command->0, f.icon, f.categories, f.comment, f.no_display, f.terminal))
    } else {
        None
    }
}

fn opt_string(v: &Option<Vec<char>>) -> (r: Option<String>)
    ensures
        match r {
            Some(s) => v is Some && s@ == v->0@,
            None => v is None,
        },
{
    match v {
        Some(x) => Some(string_of(x.as_slice())),
        None => None,
    }
}

/// Read the application described by the text of a desktop file.
pub fn parse_desktop_entry(content: &str) -> (r: Option<AppEntry>)
    ensures
        match r {
            Some(e) => desktop_entry_spec(content@) == Some(entry_view(e)),
            None => desktop_entry_spec(content@) is None,
        },
{
    let text = chars_of(content);
    let ls = lines(text.as_slice());
    let ghost all = lines_of(content@);
    let mut in_entry = false;
    let mut name: Option<Vec<char>> = None;
    let mut command: Option<String> = None;
    let mut icon: Option<Vec<char>> = None;
    let mut categories: Vec<String> = Vec::new();
    let mut comment: Option<Vec<char>> = None;
    let mut no_display = false;
    let mut terminal = false;
    let mut i: usize = 0;
    while i < ls.len()
        invariant
            text@ == content@,
            all == lines_of(content@),
            ls@.len() == all.len(),
            forall|k: int| 0 <= k < ls@.len() ==> #[trigger] ls@[k]@ == all[k],
            i <= ls@.len(),
            ({
                let f = desktop_fields(all.take(i as int));
                &&& f.in_entry == in_entry
                &&& f.name == match name {
                    Some(x) => Some(x@),
                    None => None::<Seq<char>>,
                }
                &&& f.command == match command {
                    Some(x) => Some(x@),
                    None => None::<Seq<char>>,
                }
                &&& f.icon == match icon {
                    Some(x) => Some(x@),
                    None => None::<Seq<char>>,
                }
                &&& f.categories == views(categories@)
                &&& f.comment == match comment {
                    Some(x) => Some(x@),
                    None => None::<Seq<char>>,
                }
                &&& f.no_display == no_display
                &&& f.terminal == terminal
            }),
        decreases ls@.len() - i,
    {
        proof {
            assert(all.take(i + 1).drop_last() =~= all.take(i as int));
            assert(all.take(i + 1).last() == all[i as int]);
        }
        let line = trim_chars(ls[i].as_slice());
        if line.len() == 0 || line[0] == '#' {
        } else if chars_eq_str(line.as_slice(), "[Desktop Entry]") {
            in_entry = true;
        } else if line[0] == '[' {
            in_entry = false;
        } else if !in_entry {
        } else {
            match split_once_chars(line.as_slice(), '=') {
                Some((k, v)) => {
                    let key = trim_chars(k.as_slice());
                    let key = key.as_slice();
                    if chars_eq_str(key, "Name") {
                        name = Some(trim_chars(v.as_slice()));
                    } else if chars_eq_str(key, "Exec") {
                        let vs = string_of(v.as_slice());
                        command = Some(clean_exec(vs.as_str()));
                    } else if chars_eq_str(key, "Icon") {
                        icon = Some(trim_chars(v.as_slice()));
                    } else if chars_eq_str(key, "Categories") {
                        categories = split_nonempty(v.as_slice(), ';');
                    } else if chars_eq_str(key, "Comment") {
                        comment = Some(trim_chars(v.as_slice()));
                    } else if chars_eq_str(key, "NoDisplay") {
                        let t = trim_chars(v.as_slice());
                        no_display = chars_eq_ignore_ascii_case(t.as_slice(), "true");
                    } else if chars_eq_str(key, "Terminal") {
                        let t = trim_chars(v.as_slice());
                        terminal = chars_eq_ignore_ascii_case(t.as_slice(), "true");
                    }
                },
                None => {},
            }
        }
        i = i + 1;
    }
    proof {
        assert(all.take(ls@.len() as int) =~= all);
    }
    match (name, command) {
        (Some(n), Some(e)) => {
            let entry = AppEntry {
                name: string_of(n.as_slice()),
                command: e,
                icon: opt_string(&icon),
                categories,
                comment: opt_string(&comment),
                no_display,
                terminal,
            };
            Some(entry)
        },
        _ => None,
    }
}

} // verus!
