//! The filesystem panel: a directory listing with a selection and a scroll
//! window. Reading the directory is left to the caller, which hands the raw
//! listing to [`FilesystemPanel::apply_listing`].

use crate::order::{is_stable_order, key_le, key_view, stable_order, SortKey};
use crate::text::{ascii_lower_chars, ascii_lower_seq, chars_eq_str, chars_of, split_char, split_chars, string_of, to_lowercase, unicode_lowercase};
use crate::ui_state;
use vstd::prelude::*;

verus! {

/// One entry of a directory listing.
#[derive(Clone, Debug)]
pub struct FsEntry {
    pub name: String,
    pub path: String,
    pub is_dir: bool,
    /// The size in bytes of a regular file; `None` for other entries.
    pub size: Option<u64>,
    pub extension: Option<String>,
    pub is_hidden: bool,
    pub is_symlink: bool,
}

/// `Path::extension` of a file named `name`: the part after the last dot,
/// where that dot is not the first character.
pub open spec fn extension_of(name: Seq<char>) -> Option<Seq<char>> {
    if name == seq!['.', '.'] {
        None
    } else {
        match name.index_of_last('.') {
            Some(k) => if k == 0 {
                None
            } else {
                Some(name.skip(k + 1))
            },
            None => None,
        }
    }
}

fn copy_opt_string(s: &Option<String>) -> (r: Option<String>)
    ensures
        r == *s,
{
    match s {
        Some(x) => Some(x.clone()),
        None => None,
    }
}

impl FsEntry {
    /// The entry for a file called `name` at `path`: hidden where the name
    /// starts with a dot, and with the extension of the name.
    pub fn from_listing(
        name: String,
        path: String,
        is_dir: bool,
        is_symlink: bool,
        size: Option<u64>,
    ) -> (e: FsEntry)
        ensures
            e.name == name,
            e.path == path,
            e.is_dir == is_dir,
            e.is_symlink == is_symlink,
            e.size == size,
            e.is_hidden == (name@.len() > 0 && name@[0] == '.'),
            match e.extension {
                Some(x) => extension_of(name@) == Some(x@),
                None => extension_of(name@) is None,
            },
    {
        let chars = chars_of(name.as_str());
        let is_hidden = chars.len() > 0 && chars[0] == '.';
        let mut last_dot: Option<usize> = None;
        let mut i: usize = 0;
        while i < chars.len()
            invariant
                chars@ == name@,
                i <= chars@.len(),
                match last_dot {
                    Some(k) => k < i && chars@[k as int] == '.' && forall|j: int|
                        k < j < i ==> chars@[j] != '.',
                    None => forall|j: int| 0 <= j < i ==> chars@[j] != '.',
                },
            decreases chars@.len() - i,
        {
            if chars[i] == '.' {
                last_dot = Some(i);
            }
            i = i + 1;
        }
        proof {
            chars@.index_of_last_ensures('.');
        }
        let is_dotdot = chars.len() == 2 && chars[0] == '.' && chars[1] == '.';
        proof {
            if is_dotdot {
                assert(chars@ =~= seq!['.', '.']);
            }
            if chars@ == seq!['.', '.'] {
                assert(chars@.len() == 2);
            }
        }
        let extension = if is_dotdot {
            None
        } else {
            match last_dot {
                Some(k) => if k == 0 {
                    None
                } else {
                    let ext = crate::text::sub_vec(chars.as_slice(), k + 1, chars.len());
                    proof {
                        assert(ext@ =~= chars@.skip(k + 1));
                    }
                    Some(string_of(ext.as_slice()))
                },
                None => None,
            }
        };
        FsEntry { name, path, is_dir, size, extension, is_hidden, is_symlink }
    }

    fn duplicate(&self) -> (r: FsEntry)
        ensures
            r == *self,
    {
        FsEntry {
            name: self.name.clone(),
            path: self.path.clone(),
            is_dir: self.is_dir,
            size: self.size,
            extension: copy_opt_string(&self.extension),
            is_hidden: self.is_hidden,
            is_symlink: self.is_symlink,
        }
    }
}

/// The icon for a file with the (lower-cased) extension `x`.
pub open spec fn icon_for_extension(x: Seq<char>) -> Seq<char> {
    if x == "rs"@ {
        "🦀"@
    } else if x == "toml"@ || x == "yaml"@ || x == "yml"@ || x == "json"@ {
        "⚙️"@
    } else if x == "md"@ || x == "txt"@ {
        "📄"@
    } else if x == "png"@ || x == "jpg"@ || x == "jpeg"@ || x == "gif"@ || x == "svg"@ {
        "🖼️"@
    } else if x == "zip"@ || x == "tar"@ || x == "gz"@ || x == "xz"@ {
        "📦"@
    } else if x == "sh"@ {
        "💻"@
    } else {
        "📄"@
    }
}

/// The icon drawn before an entry's name.
pub open spec fn icon_for(e: FsEntry) -> Seq<char> {
    if e.is_dir {
        "📁"@
    } else if e.is_symlink {
        "🔗"@
    } else {
        match e.extension {
            Some(x) => icon_for_extension(ascii_lower_seq(x@)),
            None => "📄"@,
        }
    }
}

fn icon_for_entry(entry: &FsEntry) -> (r: &'static str)
    ensures
        r@ == icon_for(*entry),
{
    if entry.is_dir {
        "📁"
    } else if entry.is_symlink {
        "🔗"
    } else {
        match &entry.extension {
            Some(ext) => {
                let e = chars_of(ext.as_str());
                let x = ascii_lower_chars(e.as_slice());
                let x = x.as_slice();
                if chars_eq_str(x, "rs") {
                    "🦀"
                } else if chars_eq_str(x, "toml") || chars_eq_str(x, "yaml") || chars_eq_str(
                    x,
                    "yml",
                ) || chars_eq_str(x, "json") {
                    "⚙️"
                } else if chars_eq_str(x, "md") || chars_eq_str(x, "txt") {
                    "📄"
                } else if chars_eq_str(x, "png") || chars_eq_str(x, "jpg") || chars_eq_str(
                    x,
                    "jpeg",
                ) || chars_eq_str(x, "gif") || chars_eq_str(x, "svg") {
                    "🖼️"
                } else if chars_eq_str(x, "zip") || chars_eq_str(x, "tar") || chars_eq_str(x, "gz")
                    || chars_eq_str(x, "xz") {
                    "📦"
                } else if chars_eq_str(x, "sh") {
                    "💻"
                } else {
                    "📄"
                }
            },
            None => "📄",
        }
    }
}

/// The scroll offset after `clamp_scroll`: the smallest move that brings the
/// selection into the window of `max_visible` rows.
pub open spec fn clamped_scroll(selected: int, scroll: int, max_visible: int) -> int {
    let s1 = if selected < scroll {
        selected
    } else {
        scroll
    };
    if selected >= s1 + max_visible {
        selected + 1 - max_visible
    } else {
        s1
    }
}

/// `clamp_scroll` runs without overflow from these values.
pub open spec fn clamp_safe(selected: int, scroll: int, max_visible: int) -> bool {
    &&& selected < usize::MAX
    &&& (if selected < scroll {
        selected
    } else {
        scroll
    }) + max_visible <= usize::MAX
}

/// The rows shown for a panel of the given height: one per 22 pixels below a
/// 32-pixel header, and at least one.
pub open spec fn rows_for_height(panel_height: u32) -> int {
    let h = if panel_height >= 32 {
        panel_height - 32
    } else {
        0
    };
    if h / 22 >= 1 {
        h / 22
    } else {
        1
    }
}

/// The entries of a listing that are shown: all of them where dotfiles are
/// shown, else those that are not hidden.
pub open spec fn shown_entries(listing: Seq<FsEntry>, show_dotfiles: bool) -> Seq<FsEntry> {
    listing.filter(|e: FsEntry| show_dotfiles || !e.is_hidden)
}

/// The sort key of an entry: directories first, then by lower-cased name.
pub open spec fn entry_key(e: FsEntry) -> (bool, Seq<char>) {
    (e.is_dir, unicode_lowercase(e.name@))
}

/// The sort keys of a sequence of entries.
pub open spec fn entry_keys(entries: Seq<FsEntry>) -> Seq<(bool, Seq<char>)> {
    entries.map_values(|e: FsEntry| entry_key(e))
}

/// `sorted` is the stable sort of `entries` by [`entry_key`].
pub open spec fn sorted_by_entry_key(entries: Seq<FsEntry>, sorted: Seq<FsEntry>) -> bool {
    exists|perm: Seq<usize>|
        #[trigger] is_stable_order(entry_keys(entries), perm) && sorted
            == perm.map_values(|i: usize| entries[i as int])
}

/// The path components shown as breadcrumbs: every piece between slashes that
/// is neither empty nor `.` nor `..`.
pub open spec fn crumb_parts(cwd: Seq<char>) -> Seq<Seq<char>> {
    split_char(cwd, '/').filter(|p: Seq<char>| p.len() > 0 && p != seq!['.'] && p != seq!['.', '.'])
}

/// The breadcrumbs of a directory: `/` for an absolute path, then its
/// components; just `/` where that leaves nothing.
pub open spec fn breadcrumbs_of(cwd: Seq<char>) -> Seq<Seq<char>> {
    let root: Seq<Seq<char>> = if cwd.len() > 0 && cwd[0] == '/' {
        seq![seq!['/']]
    } else {
        Seq::empty()
    };
    let c = root + crumb_parts(cwd);
    if c.len() == 0 {
        seq![seq!['/']]
    } else {
        c
    }
}

/// `Path::parent` of the path `p`: the path without its last component, or
/// `None` where `p` is empty or a root. Named, not written out here.
pub uninterp spec fn std_path_parent(p: Seq<char>) -> Option<Seq<char>>;

/// `Path::parent`: the path without its final component, or `None` for a
/// root or an empty path. The result is named, not written out.
#[verifier::external_body]
fn path_parent(p: &str) -> (r: Option<String>)
    ensures
        match r {
            Some(s) => std_path_parent(p@) == Some(s@),
            None => std_path_parent(p@) is None,
        },
{
    std::path::Path::new(p).parent().map(|q| q.to_string_lossy().into_owned())
}

/// What the caller has to do after [`FilesystemPanel::enter_selected`].
pub enum EnterAction {
    /// Nothing was selected.
    Nothing,
    /// The panel moved into the selected directory; its listing must be read.
    ListDirectory,
    /// The selected file must be opened with the desktop's default handler.
    OpenFile(String),
}

/// The filesystem panel.
pub struct FilesystemPanel {
    pub cwd: String,
    pub entries: Vec<FsEntry>,
    pub selected: usize,
    pub scroll_offset: usize,
    pub show_dotfiles: bool,
    pub max_visible: usize,
}

impl FilesystemPanel {
    /// The panel's invariant: at least one row, and where there are entries the
    /// selection is an entry inside the scroll window. Every operation on the
    /// panel keeps it: `new` makes it, and each method's contract says that it
    /// holds after the call where it held before.
    pub open spec fn wf(&self) -> bool {
        &&& self.max_visible >= 1
        &&& self.scroll_offset + self.max_visible <= usize::MAX
        &&& if self.entries@.len() == 0 {
            self.selected == 0 && self.scroll_offset == 0
        } else {
            &&& self.selected < self.entries@.len()
            &&& self.scroll_offset <= self.selected < self.scroll_offset + self.max_visible
        }
    }

    /// A panel in directory `cwd` with no entries yet, 30 rows high.
    pub fn new(cwd: String) -> (p: Self)
        ensures
            p.wf(),
            p.cwd == cwd,
            p.entries@.len() == 0,
            p.selected == 0,
            p.scroll_offset == 0,
            !p.show_dotfiles,
            p.max_visible == 30,
    {
        FilesystemPanel {
            cwd,
            entries: Vec::new(),
            selected: 0,
            scroll_offset: 0,
            show_dotfiles: false,
            max_visible: 30,
        }
    }

    fn clamp_scroll(&mut self)
        requires
            clamp_safe(
                old(self).selected as int,
                old(self).scroll_offset as int,
                old(self).max_visible as int,
            ),
        ensures
            final(self).scroll_offset == clamped_scroll(
                old(self).selected as int,
                old(self).scroll_offset as int,
                old(self).max_visible as int,
            ),
            final(self).selected == old(self).selected,
            final(self).max_visible == old(self).max_visible,
            final(self).entries == old(self).entries,
            final(self).cwd == old(self).cwd,
            final(self).show_dotfiles == old(self).show_dotfiles,
    {
        if self.selected < self.scroll_offset {
            self.scroll_offset = self.selected;
        }
        if self.selected >= self.scroll_offset + self.max_visible {
            self.scroll_offset = self.selected + 1 - self.max_visible;
        }
    }

    /// Move the selection one entry up, where it is not at the top.
    pub fn navigate_up(&mut self)
        requires
            old(self).selected > 0 ==> clamp_safe(
                old(self).selected - 1,
                old(self).scroll_offset as int,
                old(self).max_visible as int,
            ),
        ensures
            old(self).selected > 0 ==> final(self).selected == old(self).selected - 1
                && final(self).scroll_offset == clamped_scroll(
                old(self).selected - 1,
                old(self).scroll_offset as int,
                old(self).max_visible as int,
            ),
            old(self).selected == 0 ==> final(self).selected == 0 && final(self).scroll_offset
                == old(self).scroll_offset,
            final(self).entries == old(self).entries,
            final(self).max_visible == old(self).max_visible,
            final(self).cwd == old(self).cwd,
            final(self).show_dotfiles == old(self).show_dotfiles,
            old(self).wf() ==> final(self).wf(),
    {
        if self.selected > 0 {
            self.selected -= 1;
            self.clamp_scroll();
        }
    }

    /// Move the selection one entry down, where it is not at the last entry.
    pub fn navigate_down(&mut self)
        requires
            old(self).selected < usize::MAX,
            old(self).selected + 1 < old(self).entries@.len() ==> clamp_safe(
                old(self).selected + 1,
                old(self).scroll_offset as int,
                old(self).max_visible as int,
            ),
        ensures
            old(self).selected + 1 < old(self).entries@.len() ==> final(self).selected
                == old(self).selected + 1 && final(self).scroll_offset == clamped_scroll(
                old(self).selected + 1,
                old(self).scroll_offset as int,
                old(self).max_visible as int,
            ),
            old(self).selected + 1 >= old(self).entries@.len() ==> final(self).selected
                == old(self).selected && final(self).scroll_offset == old(self).scroll_offset,
            final(self).entries == old(self).entries,
            final(self).max_visible == old(self).max_visible,
            final(self).cwd == old(self).cwd,
            final(self).show_dotfiles == old(self).show_dotfiles,
            old(self).wf() ==> final(self).wf(),
    {
        if self.selected + 1 < self.entries.len() {
            self.selected += 1;
            self.clamp_scroll();
        }
    }

    /// Fit the number of rows to a panel of the given height in pixels.
    pub fn set_panel_height(&mut self, panel_height: u32)
        requires
            clamp_safe(
                old(self).selected as int,
                old(self).scroll_offset as int,
                rows_for_height(panel_height),
            ),
        ensures
            final(self).max_visible == rows_for_height(panel_height),
            final(self).scroll_offset == clamped_scroll(
                old(self).selected as int,
                old(self).scroll_offset as int,
                rows_for_height(panel_height),
            ),
            final(self).selected == old(self).selected,
            final(self).entries == old(self).entries,
            final(self).cwd == old(self).cwd,
            final(self).show_dotfiles == old(self).show_dotfiles,
            old(self).wf() ==> final(self).wf(),
    {
        let h = panel_height.saturating_sub(32);
        let rows = h / 22;
        self.max_visible = if rows >= 1 {
            rows as usize
        } else {
            1
        };
        self.clamp_scroll();
    }

    /// The entries inside the scroll window.
    pub fn visible_entries(&self) -> (r: &[FsEntry])
        requires
            self.scroll_offset + self.max_visible <= usize::MAX,
            self.scroll_offset <= self.entries@.len(),
        ensures
            r@ == self.entries@.subrange(
                self.scroll_offset as int,
                if self.scroll_offset + self.max_visible <= self.entries@.len() {
                    self.scroll_offset + self.max_visible
                } else {
                    self.entries@.len() as int
                },
            ),
    {
        let want = self.scroll_offset + self.max_visible;
        let end = if want <= self.entries.len() {
            want
        } else {
            self.entries.len()
        };
        &self.entries.as_slice()[self.scroll_offset..end]
    }

    /// The row of the selection within the scroll window.
    pub fn selected_visible_index(&self) -> (r: usize)
        ensures
            r == if self.selected >= self.scroll_offset {
                self.selected - self.scroll_offset
            } else {
                0
            },
    {
        self.selected.saturating_sub(self.scroll_offset)
    }

    /// The breadcrumbs of the current directory.
    pub fn breadcrumbs(&self) -> (r: Vec<String>)
        ensures
            r@.map_values(|s: String| s@) == breadcrumbs_of(self.cwd@),
    {
        let cwd = chars_of(self.cwd.as_str());
        let parts = split_chars(cwd.as_slice(), '/');
        let ghost keep = |p: Seq<char>| p.len() > 0 && p != seq!['.'] && p != seq!['.', '.'];
        let ghost all = split_char(cwd@, '/');
        let mut crumbs: Vec<String> = Vec::new();
        let ghost root: Seq<Seq<char>> = if cwd@.len() > 0 && cwd@[0] == '/' {
            seq![seq!['/']]
        } else {
            Seq::empty()
        };
        if cwd.len() > 0 && cwd[0] == '/' {
            crumbs.push(String::from_str("/"));
            proof {
                reveal_strlit("/");
                assert("/"@ =~= seq!['/']);
                assert(crumbs@.map_values(|s: String| s@) =~= root);
            }
        } else {
            proof {
                assert(crumbs@.map_values(|s: String| s@) =~= root);
            }
        }
        let mut i: usize = 0;
        while i < parts.len()
            invariant
                parts@.len() == all.len(),
                forall|k: int| 0 <= k < parts@.len() ==> #[trigger] parts@[k]@ == all[k],
                i <= parts@.len(),
                keep == (|p: Seq<char>| p.len() > 0 && p != seq!['.'] && p != seq!['.', '.']),
                crumbs@.map_values(|s: String| s@) == root + all.take(i as int).filter(keep),
            decreases parts@.len() - i,
        {
            let ghost before = crumbs@;
            let p = &parts[i];
            let is_dot = p.len() == 1 && p[0] == '.';
            let is_dotdot = p.len() == 2 && p[0] == '.' && p[1] == '.';
            proof {
                if p@ == seq!['.'] {
                    assert(p@.len() == 1 && p@[0] == '.');
                }
                if p@ == seq!['.', '.'] {
                    assert(p@.len() == 2 && p@[0] == '.' && p@[1] == '.');
                }
                if is_dot {
                    assert(p@ =~= seq!['.']);
                }
                if is_dotdot {
                    assert(p@ =~= seq!['.', '.']);
                }
            }
            if p.len() > 0 && !is_dot && !is_dotdot {
                let c = string_of(p.as_slice());
                crumbs.push(c);
                proof {
                    assert(crumbs@.map_values(|s: String| s@) =~= before.map_values(|s: String| s@).push(p@));
                }
            }
            proof {
                let t = all.take(i + 1);
                assert(t.drop_last() =~= all.take(i as int));
                assert(t.last() == all[i as int]);
                reveal_with_fuel(Seq::filter, 1);
                assert(t.filter(keep) == if keep(t.last()) {
                    t.drop_last().filter(keep).push(t.last())
                } else {
                    t.drop_last().filter(keep)
                });
                assert(crumbs@.map_values(|s: String| s@) =~= root + t.filter(keep));
            }
            i = i + 1;
        }
        proof {
            assert(all.take(parts@.len() as int) =~= all);
        }
        if crumbs.len() == 0 {
            crumbs.push(String::from_str("/"));
            proof {
                reveal_strlit("/");
                assert("/"@ =~= seq!['/']);
                assert(crumbs@.map_values(|s: String| s@) =~= seq![seq!['/']]);
            }
        }
        crumbs
    }

    /// Move to the parent directory. Returns `false`, and changes nothing, where
    /// the current directory has no parent; after `true` the caller reads the
    /// new directory's listing.
    pub fn go_parent(&mut self) -> (moved: bool)
        ensures
            moved == (std_path_parent(old(self).cwd@) is Some),
            moved ==> Some(final(self).cwd@) == std_path_parent(old(self).cwd@),
            !moved ==> final(self).cwd == old(self).cwd,
            final(self).entries == old(self).entries,
            final(self).selected == old(self).selected,
            final(self).scroll_offset == old(self).scroll_offset,
            final(self).max_visible == old(self).max_visible,
            final(self).show_dotfiles == old(self).show_dotfiles,
            old(self).wf() ==> final(self).wf(),
    {
        match path_parent(self.cwd.as_str()) {
            Some(parent) => {
                self.cwd = parent;
                true
            },
            None => false,
        }
    }

    /// Flip whether dotfiles are shown and go back to the top; the caller then
    /// reads the listing again.
    pub fn toggle_dotfiles(&mut self)
        ensures
            final(self).show_dotfiles == !old(self).show_dotfiles,
            final(self).selected == 0,
            final(self).scroll_offset == 0,
            final(self).entries == old(self).entries,
            final(self).cwd == old(self).cwd,
            final(self).max_visible == old(self).max_visible,
            old(self).wf() ==> final(self).wf(),
    {
        self.show_dotfiles = !self.show_dotfiles;
        self.selected = 0;
        self.scroll_offset = 0;
    }

    /// Act on the selected entry: move into a directory (the caller then reads
    /// its listing), or name the file that the caller opens.
    pub fn enter_selected(&mut self) -> (a: EnterAction)
        ensures
            old(self).selected >= old(self).entries@.len() ==> a is Nothing && *final(self)
                == *old(self),
            old(self).selected < old(self).entries@.len() && old(self).entries@[old(
                self,
            ).selected as int].is_dir ==> {
                &&& a is ListDirectory
                &&& final(self).cwd == old(self).entries@[old(self).selected as int].path
                &&& final(self).selected == 0
                &&& final(self).scroll_offset == 0
                &&& final(self).entries == old(self).entries
                &&& final(self).max_visible == old(self).max_visible
                &&& final(self).show_dotfiles == old(self).show_dotfiles
            },
            old(self).selected < old(self).entries@.len() && !old(self).entries@[old(
                self,
            ).selected as int].is_dir ==> {
                &&& a matches EnterAction::OpenFile(p) && p == old(self).entries@[old(
                    self,
                ).selected as int].path
                &&& *final(self) == *old(self)
            },
            old(self).wf() ==> final(self).wf(),
    {
        if self.selected >= self.entries.len() {
            return EnterAction::Nothing;
        }
        if self.entries[self.selected].is_dir {
            let p = self.entries[self.selected].path.clone();
            self.cwd = p;
            self.selected = 0;
            self.scroll_offset = 0;
            EnterAction::ListDirectory
        } else {
            EnterAction::OpenFile(self.entries[self.selected].path.clone())
        }
    }

    /// Take a freshly read directory listing: drop hidden entries unless
    /// dotfiles are shown, sort directories first and then by lower-cased name,
    /// and keep the selection inside the new list and the scroll window.
    pub fn apply_listing(&mut self, listing: Vec<FsEntry>)
        requires
            (if old(self).selected < old(self).scroll_offset {
                old(self).selected
            } else {
                old(self).scroll_offset
            }) + old(self).max_visible <= usize::MAX,
        ensures
            sorted_by_entry_key(
                shown_entries(listing@, old(self).show_dotfiles),
                final(self).entries@,
            ),
            final(self).entries@.len() == 0 ==> final(self).selected == 0
                && final(self).scroll_offset == 0,
            final(self).entries@.len() > 0 ==> {
                let sel = if old(self).selected < final(self).entries@.len() {
                    old(self).selected as int
                } else {
                    final(self).entries@.len() - 1
                };
                &&& final(self).selected == sel
                &&& final(self).scroll_offset == clamped_scroll(
                    sel,
                    old(self).scroll_offset as int,
                    old(self).max_visible as int,
                )
            },
            final(self).cwd == old(self).cwd,
            final(self).show_dotfiles == old(self).show_dotfiles,
            final(self).max_visible == old(self).max_visible,
            old(self).max_visible >= 1 && old(self).scroll_offset + old(self).max_visible
                <= usize::MAX ==> final(self).wf(),
    {
        let show = self.show_dotfiles;
        let ghost pred = |e: FsEntry| show || !e.is_hidden;
        let mut shown: Vec<FsEntry> = Vec::new();
        let mut i: usize = 0;
        while i < listing.len()
            invariant
                i <= listing@.len(),
                pred == (|e: FsEntry| show || !e.is_hidden),
                shown@ == listing@.take(i as int).filter(pred),
            decreases listing@.len() - i,
        {
            let ghost before = shown@;
            if show || !listing[i].is_hidden {
                shown.push(listing[i].duplicate());
            }
            proof {
                let t = listing@.take(i + 1);
                assert(t.drop_last() =~= listing@.take(i as int));
                assert(t.last() == listing@[i as int]);
                reveal_with_fuel(Seq::filter, 1);
                assert(t.filter(pred) == if pred(t.last()) {
                    t.drop_last().filter(pred).push(t.last())
                } else {
                    t.drop_last().filter(pred)
                });
                assert(shown@ =~= t.filter(pred));
            }
            i = i + 1;
        }
        proof {
            assert(listing@.take(listing@.len() as int) =~= listing@);
        }
        let mut keys: Vec<SortKey> = Vec::new();
        let mut j: usize = 0;
        while j < shown.len()
            invariant
                j <= shown@.len(),
                keys@.len() == j,
                forall|k: int|
                    0 <= k < j ==> #[trigger] key_view(keys@[k]) == entry_key(shown@[k]),
            decreases shown@.len() - j,
        {
            let lower = to_lowercase(shown[j].name.as_str());
            let name = chars_of(lower.as_str());
            keys.push(SortKey { first: shown[j].is_dir, name });
            j = j + 1;
        }
        let perm = stable_order(&keys);
        proof {
            assert(keys@.map_values(|k: SortKey| key_view(k)) =~= shown@.map_values(
                |e: FsEntry| entry_key(e),
            ));
        }
        let mut sorted: Vec<FsEntry> = Vec::new();
        let mut k: usize = 0;
        while k < perm.len()
            invariant
                k <= perm@.len(),
                perm@.len() == shown@.len(),
                forall|q: int| 0 <= q < perm@.len() ==> #[trigger] perm@[q] < shown@.len(),
                sorted@ == perm@.take(k as int).map_values(|x: usize| shown@[x as int]),
            decreases perm@.len() - k,
        {
            sorted.push(shown[perm[k]].duplicate());
            proof {
                assert(perm@.take(k + 1).map_values(|x: usize| shown@[x as int]) =~= perm@.take(
                    k as int,
                ).map_values(|x: usize| shown@[x as int]).push(shown@[perm@[k as int] as int]));
            }
            k = k + 1;
        }
        proof {
            assert(perm@.take(perm@.len() as int) =~= perm@);
            assert(keys@.map_values(|k: SortKey| key_view(k)) == entry_keys(shown@));
            assert(is_stable_order(entry_keys(shown@), perm@));
            assert(sorted@ =~= perm@.map_values(|x: usize| shown@[x as int]));
            assert(sorted_by_entry_key(shown@, sorted@));
        }
        self.entries = sorted;
        if self.entries.len() == 0 {
            self.selected = 0;
            self.scroll_offset = 0;
            return;
        }
        if self.selected > self.entries.len() - 1 {
            self.selected = self.entries.len() - 1;
        }
        self.clamp_scroll();
    }

    /// The visible entries as drawn: each name after its icon.
    pub fn to_ui_entries(&self) -> (r: Vec<ui_state::FsEntry>)
        requires
            self.scroll_offset + self.max_visible <= usize::MAX,
            self.scroll_offset <= self.entries@.len(),
        ensures
            ({
                let end = if self.scroll_offset + self.max_visible <= self.entries@.len() {
                    self.scroll_offset + self.max_visible
                } else {
                    self.entries@.len() as int
                };
                let vis = self.entries@.subrange(self.scroll_offset as int, end);
                &&& r@.len() == vis.len()
                &&& forall|i: int|
                    0 <= i < r@.len() ==> #[trigger] r@[i].name@ == icon_for(vis[i]) + " "@
                        + vis[i].name@ && r@[i].is_dir == vis[i].is_dir
            }),
    {
        let vis = self.visible_entries();
        let mut r: Vec<ui_state::FsEntry> = Vec::new();
        let mut i: usize = 0;
        while i < vis.len()
            invariant
                i <= vis@.len(),
                r@.len() == i,
                forall|k: int|
                    0 <= k < i ==> #[trigger] r@[k].name@ == icon_for(vis@[k]) + " "@
                        + vis@[k].name@ && r@[k].is_dir == vis@[k].is_dir,
            decreases vis@.len() - i,
        {
            let e = &vis[i];
            let mut name = String::from_str(icon_for_entry(e));
            name.append(" ");
            name.append(e.name.as_str());
            let ghost before = r@;
            r.push(ui_state::FsEntry { name, is_dir: e.is_dir });
            proof {
                assert forall|k: int| 0 <= k < i + 1 implies #[trigger] r@[k].name@ == icon_for(vis@[k]) + " "@
                    + vis@[k].name@ && r@[k].is_dir == vis@[k].is_dir by {
                    if k < i {
                        assert(r@[k] == before[k]);
                    }
                }
            }
            i = i + 1;
        }
        r
    }
}

/// A well-formed panel can always take the next move: moving the selection up
/// or down and taking a new listing are all allowed on it, and each of them
/// (like going to the parent, toggling dotfiles and entering an entry) leaves
/// the panel well-formed.
pub proof fn law_panel_moves_allowed(p: FilesystemPanel)
    requires
        p.wf(),
    ensures
        p.selected < usize::MAX,
        p.selected > 0 ==> clamp_safe(p.selected - 1, p.scroll_offset as int, p.max_visible as int),
        p.selected + 1 < p.entries@.len() ==> clamp_safe(
            p.selected + 1,
            p.scroll_offset as int,
            p.max_visible as int,
        ),
        (if p.selected < p.scroll_offset {
            p.selected
        } else {
            p.scroll_offset
        }) + p.max_visible <= usize::MAX,
{
    assert(p.entries@.len() == p.entries.len());
}

/// After scrolling, the selected row is inside the window of rows.
pub proof fn law_scroll_shows_selection(selected: int, scroll: int, rows: int)
    requires
        rows >= 1,
        0 <= selected,
        0 <= scroll,
    ensures
        clamped_scroll(selected, scroll, rows) <= selected < clamped_scroll(selected, scroll, rows) + rows,
{
}

/// A window that already shows the selected row does not move.
pub proof fn law_scroll_stays_when_visible(selected: int, scroll: int, rows: int)
    requires
        scroll <= selected < scroll + rows,
    ensures
        clamped_scroll(selected, scroll, rows) == scroll,
{
}

/// A listing in the panel has its directories first: no directory comes
/// after a file.
pub proof fn law_directories_first(entries: Seq<FsEntry>, sorted: Seq<FsEntry>)
    requires
        sorted_by_entry_key(entries, sorted),
    ensures
        sorted.len() == entries.len(),
        forall|i: int, j: int| 0 <= i < j < sorted.len() && (#[trigger] sorted[j]).is_dir ==> (#[trigger] sorted[i]).is_dir,
{
    let perm = choose|perm: Seq<usize>|
        #[trigger] is_stable_order(entry_keys(entries), perm) && sorted == perm.map_values(|i: usize| entries[i as int]);
    assert forall|i: int, j: int| 0 <= i < j < sorted.len() && (#[trigger] sorted[j]).is_dir implies (#[trigger] sorted[i]).is_dir by {
        let ki = entry_keys(entries)[perm[i] as int];
        let kj = entry_keys(entries)[perm[j] as int];
        assert(key_le(ki, kj));
        assert(sorted[i] == entries[perm[i] as int]);
        assert(sorted[j] == entries[perm[j] as int]);
    }
}

/// Sorting a listing neither drops nor repeats an entry: each shown entry
/// appears exactly as often as in the listing.
pub proof fn law_sort_keeps_entries(entries: Seq<FsEntry>, sorted: Seq<FsEntry>)
    requires
        sorted_by_entry_key(entries, sorted),
    ensures
        sorted.to_multiset() == entries.to_multiset(),
{
    let perm = choose|perm: Seq<usize>|
        #[trigger] is_stable_order(entry_keys(entries), perm) && sorted == perm.map_values(|i: usize| entries[i as int]);
    crate::order::lemma_permuted_multiset(entries, perm);
}

} // verus!
