//! The state and decisions of the file dialog: which extensions it offers,
//! which entries of a directory it lists and in which order, what a click
//! selects, and what the dialog answers.  Reading the directory, drawing the
//! widgets and asking whether a path exists stay with the caller.
use vstd::prelude::*;
use crate::sort::{lex_le, lex_lt, lex_le_exec, lemma_lex_trans, lemma_lex_antisym, lemma_lex_total, is_stable_sort_with, sort_by_keys, key_views, reversed};
use crate::text::{ends_with, chars_ends_with, codes, codes_of, lemma_codes_injective, str_chars, string_from_chars, lowercase, lowercase_of, contains_sub, chars_contain, before_first, chars_before_first, joined};
use crate::ui_enums::SortDirection;

verus! {

/// The colour drawn for most file icons.
pub const WHITE: u32 = 0xFFFF_FFFF;

/// The icon drawn for a file with no known extension.
pub const DEFAULT_FILE_ICON: char = '\u{f15b}';

/// What the dialog answers each frame.
pub enum FileDialogResult {
    Canceled,
    Success(Vec<String>),
    Busy,
}

/// A point in time, as seconds and nanoseconds since the Unix epoch.
#[derive(Clone, Copy, Debug, PartialEq, Eq, Structural)]
pub struct Timestamp {
    pub secs: i64,
    pub nanos: u32,
}

/// An entry of a directory, as the caller read it.
pub struct Listing {
    pub path: String,
    pub name: String,
    pub is_dir: bool,
    pub is_file: bool,
    pub created: Timestamp,
    pub modified: Timestamp,
    pub size: u64,
}

/// A directory the dialog lists.
pub struct DirEntry {
    pub path: String,
    pub name: String,
}

/// A file the dialog lists, with the icon and icon colour it is drawn with.
pub struct FileEntry {
    pub path: String,
    pub icon: char,
    pub icon_clr: u32,
    pub name: String,
    pub created: Timestamp,
    pub modified: Timestamp,
    pub size: u64,
}

// ---------- extensions ----------
/// The extension groups as values: group name and its extensions.
pub open spec fn ext_view(v: Seq<(String, Vec<String>)>) -> Seq<(Seq<char>, Seq<Seq<char>>)> {
    v.map_values(|e: (String, Vec<String>)| (e.0@, strs_view(e.1@)))
}

pub open spec fn strs_view(v: Seq<String>) -> Seq<Seq<char>> {
    v.map_values(|s: String| s@)
}

/// Group names strictly increase (as strings order) and no group is empty.
pub open spec fn groups_wf(e: Seq<(Seq<char>, Seq<Seq<char>>)>) -> bool {
    &&& forall|i: int, j: int| 0 <= i < j < e.len() ==> lex_lt(codes(#[trigger] e[i].0), codes(#[trigger] e[j].0))
    &&& forall|i: int| 0 <= i < e.len() ==> (#[trigger] e[i].1).len() > 0
}

/// The position where a group named `k` is, or belongs: the number of groups
/// whose name comes before `k`.
pub open spec fn group_pos(e: Seq<(Seq<char>, Seq<Seq<char>>)>, k: Seq<char>) -> int
    decreases e.len(),
{
    if e.len() == 0 {
        0
    } else if lex_lt(codes(e[0].0), codes(k)) {
        1 + group_pos(e.drop_first(), k)
    } else {
        0
    }
}

/// The groups after `x` is added to the group named `k`: appended to it where
/// it exists, else in a new group at its place.
pub open spec fn with_ext(e: Seq<(Seq<char>, Seq<Seq<char>>)>, k: Seq<char>, x: Seq<char>) -> Seq<(Seq<char>, Seq<Seq<char>>)> {
    let p = group_pos(e, k);
    if p < e.len() && e[p].0 == k {
        e.update(p, (k, e[p].1.push(x)))
    } else {
        e.insert(p, (k, seq![x]))
    }
}

/// The extensions of the group named `k`, if there is one.
pub open spec fn group_of(e: Seq<(Seq<char>, Seq<Seq<char>>)>, k: Seq<char>) -> Option<Seq<Seq<char>>> {
    if exists|i: int| 0 <= i < e.len() && (#[trigger] e[i]).0 == k {
        Some(e[choose|i: int| 0 <= i < e.len() && (#[trigger] e[i]).0 == k].1)
    } else {
        None
    }
}

/// Some extension of the group ends `name`.
pub open spec fn group_matches(exts: Seq<Seq<char>>, name: Seq<char>) -> bool {
    exists|j: int| 0 <= j < exts.len() && ends_with(name, #[trigger] exts[j])
}

/// The name of the first group with an extension that ends `name`, else
/// nothing.
pub open spec fn ext_choice(e: Seq<(Seq<char>, Seq<Seq<char>>)>, name: Seq<char>) -> Seq<char>
    decreases e.len(),
{
    if e.len() == 0 {
        Seq::empty()
    } else if group_matches(e[0].1, name) {
        e[0].0
    } else {
        ext_choice(e.drop_first(), name)
    }
}

/// A file named `name` is shown: no extensions were asked for, or one of them
/// ends the name.
pub open spec fn name_allowed(e: Seq<(Seq<char>, Seq<Seq<char>>)>, name: Seq<char>) -> bool {
    e.len() == 0 || exists|i: int| 0 <= i < e.len() && group_matches(#[trigger] e[i].1, name)
}

/// The file name after choosing extension `ext` for it: cut at its first dot,
/// then `ext` appended unless nothing is left.
pub open spec fn renamed(name: Seq<char>, ext: Seq<char>) -> Seq<char> {
    let base = before_first(name, '.');
    if base.len() > 0 {
        base + ext
    } else {
        base
    }
}

/// The label of a group in the extension list: its name alone when its only
/// extension is the name, else the name with its extensions in brackets.
pub open spec fn group_label(name: Seq<char>, exts: Seq<Seq<char>>) -> Seq<char> {
    if exts.len() == 1 && exts[0] == name {
        name
    } else {
        name + seq![' ', '('] + joined(exts, seq![',', ' ']) + seq![')']
    }
}

// ---------- icons ----------
/// The icons by extension, first match wins.
pub open spec fn icon_table() -> Seq<(Seq<char>, char, u32)> {
    seq![
        (".txt"@, '\u{f15c}', WHITE),
        (".md"@, '\u{f15c}', WHITE),
        (".png"@, '\u{f1c5}', WHITE),
        (".apng"@, '\u{f1c5}', WHITE),
        (".gif"@, '\u{f1c5}', WHITE),
        (".jpg"@, '\u{f1c5}', WHITE),
        (".jpeg"@, '\u{f1c5}', WHITE),
        (".tga"@, '\u{f1c5}', WHITE),
        (".tiff"@, '\u{f1c5}', WHITE),
        (".zip"@, '\u{f1c6}', WHITE),
        (".7z"@, '\u{f1c6}', WHITE),
        (".tar.gz"@, '\u{f1c6}', WHITE),
        (".pmp"@, '\u{f1c6}', WHITE),
        (".ttmp"@, '\u{f1c6}', WHITE),
        (".ttmp2"@, '\u{f1c6}', WHITE),
        (".amp"@, '\u{f570}', 0xFF7EB182u32),
        (".amp.patch"@, '\u{f570}', 0xFF7EB182u32),
        (".json"@, '\u{f1c9}', WHITE),
        (".yaml"@, '\u{f1c9}', WHITE),
        (".toml"@, '\u{f1c9}', WHITE),
        (".xml"@, '\u{f1c9}', WHITE),
        (".ini"@, '\u{f1c9}', WHITE),
        (".sh"@, '\u{f1c9}', WHITE),
        (".bat"@, '\u{f1c9}', WHITE),
        (".rs"@, '\u{f1c9}', WHITE),
        (".cs"@, '\u{f1c9}', WHITE),
        (".py"@, '\u{f1c9}', WHITE),
    ]
}

/// The icon of the first entry of `t` whose extension ends `name`.
pub open spec fn icon_in(t: Seq<(Seq<char>, char, u32)>, name: Seq<char>) -> (char, u32)
    decreases t.len(),
{
    if t.len() == 0 {
        (DEFAULT_FILE_ICON, WHITE)
    } else if ends_with(name, t[0].0) {
        (t[0].1, t[0].2)
    } else {
        icon_in(t.drop_first(), name)
    }
}

pub open spec fn file_icon(name: Seq<char>) -> (char, u32) {
    icon_in(icon_table(), name)
}

fn icon_table_exec() -> (t: Vec<(&'static str, char, u32)>)
    ensures
        t@.len() == icon_table().len(),
        forall|i: int| 0 <= i < t@.len() ==> (#[trigger] t@[i]).0@ == icon_table()[i].0 && t@[i].1 == icon_table()[i].1
            && t@[i].2 == icon_table()[i].2,
{
    let mut t: Vec<(&'static str, char, u32)> = Vec::new();
    t.push((".txt", '\u{f15c}', WHITE));
    t.push((".md", '\u{f15c}', WHITE));
    t.push((".png", '\u{f1c5}', WHITE));
    t.push((".apng", '\u{f1c5}', WHITE));
    t.push((".gif", '\u{f1c5}', WHITE));
    t.push((".jpg", '\u{f1c5}', WHITE));
    t.push((".jpeg", '\u{f1c5}', WHITE));
    t.push((".tga", '\u{f1c5}', WHITE));
    t.push((".tiff", '\u{f1c5}', WHITE));
    t.push((".zip", '\u{f1c6}', WHITE));
    t.push((".7z", '\u{f1c6}', WHITE));
    t.push((".tar.gz", '\u{f1c6}', WHITE));
    t.push((".pmp", '\u{f1c6}', WHITE));
    t.push((".ttmp", '\u{f1c6}', WHITE));
    t.push((".ttmp2", '\u{f1c6}', WHITE));
    t.push((".amp", '\u{f570}', 0xFF7EB182u32));
    t.push((".amp.patch", '\u{f570}', 0xFF7EB182u32));
    t.push((".json", '\u{f1c9}', WHITE));
    t.push((".yaml", '\u{f1c9}', WHITE));
    t.push((".toml", '\u{f1c9}', WHITE));
    t.push((".xml", '\u{f1c9}', WHITE));
    t.push((".ini", '\u{f1c9}', WHITE));
    t.push((".sh", '\u{f1c9}', WHITE));
    t.push((".bat", '\u{f1c9}', WHITE));
    t.push((".rs", '\u{f1c9}', WHITE));
    t.push((".cs", '\u{f1c9}', WHITE));
    t.push((".py", '\u{f1c9}', WHITE));
    t
}

/// The icon and icon colour a file named `name` is drawn with.
pub fn file_icon_exec(name: &Vec<char>) -> (r: (char, u32))
    ensures
        r == file_icon(name@),
{
    let t = icon_table_exec();
    let mut i: usize = 0;
    assert(icon_table().skip(0) =~= icon_table());
    while i < t.len()
        invariant
            i <= t@.len(),
            t@.len() == icon_table().len(),
            forall|k: int| 0 <= k < t@.len() ==> (#[trigger] t@[k]).0@ == icon_table()[k].0 && t@[k].1 == icon_table()[k].1
                && t@[k].2 == icon_table()[k].2,
            icon_in(icon_table().skip(i as int), name@) == file_icon(name@),
        decreases t@.len() - i,
    {
        let ext = str_chars(t[i].0);
        proof {
            assert(icon_table().skip(i as int)[0] == icon_table()[i as int]);
            assert(icon_table().skip(i as int).drop_first() =~= icon_table().skip(i + 1));
        }
        if chars_ends_with(name, &ext) {
            return (t[i].1, t[i].2);
        }
        i = i + 1;
    }
    assert(icon_table().skip(i as int) =~= Seq::<(Seq<char>, char, u32)>::empty());
    (DEFAULT_FILE_ICON, WHITE)
}

// ---------- listing ----------
/// The directories among `ls`, in their order.
pub open spec fn listed_dirs(ls: Seq<Listing>) -> Seq<DirEntry>
    decreases ls.len(),
{
    if ls.len() == 0 {
        Seq::empty()
    } else {
        let rest = listed_dirs(ls.drop_last());
        let l = ls.last();
        if l.is_dir {
            rest.push(DirEntry { path: l.path, name: l.name })
        } else {
            rest
        }
    }
}

/// The files among `ls` that are shown, in their order.
pub open spec fn listed_files(
    ls: Seq<Listing>,
    e: Seq<(Seq<char>, Seq<Seq<char>>)>,
    allow_files: bool,
) -> Seq<FileEntry>
    decreases ls.len(),
{
    if ls.len() == 0 {
        Seq::empty()
    } else {
        let rest = listed_files(ls.drop_last(), e, allow_files);
        let l = ls.last();
        if !l.is_dir && l.is_file && allow_files && name_allowed(e, l.name@) {
            rest.push(
                FileEntry {
                    path: l.path,
                    icon: file_icon(l.name@).0,
                    icon_clr: file_icon(l.name@).1,
                    name: l.name,
                    created: l.created,
                    modified: l.modified,
                    size: l.size,
                },
            )
        } else {
            rest
        }
    }
}

// ---------- order ----------
/// The order of a time: seconds, shifted to be unsigned, then nanoseconds.
pub open spec fn time_key(t: Timestamp) -> Seq<u64> {
    seq![(t.secs + 0x8000_0000_0000_0000) as u64, t.nanos as u64]
}

/// Directories are always ordered by their lowercase name.
pub open spec fn dir_key(d: DirEntry) -> Seq<u64> {
    codes(lowercase_of(d.name@))
}

/// Files are ordered by the column: name (lowercase), modified, created or
/// size; any other column leaves their order as it is.
pub open spec fn file_key(column: i16, f: FileEntry) -> Seq<u64> {
    if column == 0 {
        codes(lowercase_of(f.name@))
    } else if column == 1 {
        time_key(f.modified)
    } else if column == 2 {
        time_key(f.created)
    } else if column == 3 {
        seq![f.size]
    } else {
        Seq::empty()
    }
}

/// `output` is `input` sorted stably by `keys`, and reversed when `descending`.
pub open spec fn sorted_in<T>(input: Seq<T>, output: Seq<T>, keys: Seq<Seq<u64>>, descending: bool) -> bool {
    if descending {
        is_stable_sort_with(input, output.reverse(), keys)
    } else {
        is_stable_sort_with(input, output, keys)
    }
}

pub open spec fn dir_keys(d: Seq<DirEntry>) -> Seq<Seq<u64>> {
    d.map_values(|x: DirEntry| dir_key(x))
}

pub open spec fn file_keys(column: i16, f: Seq<FileEntry>) -> Seq<Seq<u64>> {
    f.map_values(|x: FileEntry| file_key(column, x))
}

// ---------- selection ----------
/// The selection after a click on `path`: with shift it goes first and the
/// selection is cut to `limit`, else it is all that is selected.
pub open spec fn selected_after(sel: Seq<String>, path: String, shift: bool, limit: usize) -> Seq<String> {
    if shift {
        let s = sel.insert(0, path);
        if limit <= s.len() {
            s.subrange(0, limit as int)
        } else {
            s
        }
    } else {
        seq![path]
    }
}

/// A file named `name` is shown under the search text `search`.
pub open spec fn search_shows(search: Seq<char>, name: Seq<char>) -> bool {
    lowercase_of(search).len() == 0 || contains_sub(lowercase_of(name), lowercase_of(search))
}

/// The builder of a dialog.
pub struct FileDialogBuilder {
    pub path: String,
    pub file_name: String,
    pub limit: usize,
    pub open: bool,
    pub allow_dirs: bool,
    pub allow_files: bool,
    /// Extension groups, kept ordered by name (name, extensions).
    pub allowed_extensions: Vec<(String, Vec<String>)>,
    /// Pinned places (path, icon, name).
    pub pinned: Vec<(String, String, String)>,
}

/// A file dialog.
pub struct FileDialog {
    pub prev_path: String,
    pub path: String,
    pub file_name: String,
    pub file_ext: String,
    pub limit: usize,
    pub open: bool,
    pub allow_dirs: bool,
    pub allow_files: bool,
    pub allowed_extensions: Vec<(String, Vec<String>)>,
    pub pinned: Vec<(String, String, String)>,
    pub search: String,
    pub cur_dirs: Vec<DirEntry>,
    pub cur_files: Vec<FileEntry>,
    pub sort_column: i16,
    pub sort_dir: SortDirection,
    pub editing_path: bool,
    pub selected: Vec<String>,
}

impl FileDialogBuilder {
    /// Well formed: the extension groups are ordered and none is empty, and at
    /// least one entry may be selected.
    pub open spec fn wf(&self) -> bool {
        groups_wf(ext_view(self.allowed_extensions@)) && self.limit >= 1
    }

    /// The dialog the builder describes, before its directory is read (the
    /// caller reads it and hands the entries to `load_entries`).
    pub fn finish(self) -> (res: FileDialog)
        requires
            self.wf(),
        ensures
            res.wf(),
            res.prev_path == self.path,
            res.path == self.path,
            res.file_name == self.file_name,
            res.file_ext@ == ext_choice(ext_view(self.allowed_extensions@), self.file_name@),
            res.limit == self.limit,
            res.open == self.open,
            res.allow_dirs == self.allow_dirs,
            res.allow_files == self.allow_files,
            res.allowed_extensions == self.allowed_extensions,
            res.pinned == self.pinned,
            res.search@.len() == 0,
            res.cur_dirs@.len() == 0,
            res.cur_files@.len() == 0,
            res.sort_column == 0,
            res.sort_dir == SortDirection::Ascending,
            !res.editing_path,
            res.selected@.len() == 0,
    {
        let mut s = FileDialog {
            prev_path: self.path.clone(),
            path: self.path,
            file_name: self.file_name,
            file_ext: String::new(),
            limit: self.limit,
            open: self.open,
            allow_dirs: self.allow_dirs,
            allow_files: self.allow_files,
            allowed_extensions: self.allowed_extensions,
            pinned: self.pinned,
            search: String::new(),
            cur_dirs: Vec::new(),
            cur_files: Vec::new(),
            sort_column: 0,
            sort_dir: SortDirection::Ascending,
            editing_path: false,
            selected: Vec::new(),
        };
        s.select_ext();
        s
    }

    /// Adds `ext` to the group `name` (the extension itself where no name is
    /// given), creating the group where there is none.
    pub fn add_extension(self, ext: String, name: Option<String>) -> (res: Self)
        requires
            self.wf(),
        ensures
            res.wf(),
            ext_view(res.allowed_extensions@) == with_ext(
                ext_view(self.allowed_extensions@),
                match name {
                    Some(n) => n@,
                    None => ext@,
                },
                ext@,
            ),
            res.path == self.path,
            res.file_name == self.file_name,
            res.limit == self.limit,
            res.open == self.open,
            res.allow_dirs == self.allow_dirs,
            res.allow_files == self.allow_files,
            res.pinned == self.pinned,
    {
        let mut s = self;
        let key = match name {
            Some(n) => n,
            None => ext.clone(),
        };
        let ghost e = ext_view(s.allowed_extensions@);
        let kc = codes_of(&str_chars(key.as_str()));
        let mut i: usize = 0;
        let mut found = false;
        assert(e.skip(0) =~= e);
        while !found && i < s.allowed_extensions.len()
            invariant
                e == ext_view(s.allowed_extensions@),
                i <= e.len(),
                group_pos(e, key@) == i + group_pos(e.skip(i as int), key@),
                found ==> i < e.len() && group_pos(e.skip(i as int), key@) == 0,
                kc@ == codes(key@),
            decreases e.len() - i + (if found { 0int } else { 1int }),
        {
            let ki = codes_of(&str_chars(s.allowed_extensions[i].0.as_str()));
            proof {
                assert(e[i as int].0 == s.allowed_extensions@[i as int].0@);
                assert(e.skip(i as int)[0] == e[i as int]);
                assert(e.skip(i as int).drop_first() =~= e.skip(i + 1));
            }
            if lex_le_exec(&kc, &ki) {
                found = true;
            } else {
                i = i + 1;
            }
        }
        proof {
            if !found {
                assert(e.skip(i as int).len() == 0);
            }
            assert(group_pos(e, key@) == i);
        }
        if i < s.allowed_extensions.len() && s.allowed_extensions[i].0 == key {
            let ghost old_v = s.allowed_extensions@;
            let mut entry = s.allowed_extensions.remove(i);
            let ghost ev = ext@;
            entry.1.push(ext);
            let ghost entry_v = entry;
            s.allowed_extensions.insert(i, entry);
            proof {
                assert(s.allowed_extensions@ =~= old_v.update(i as int, entry_v));
                assert(strs_view(entry_v.1@) =~= strs_view(old_v[i as int].1@).push(ev));
                assert(entry_v.0@ == key@);
                lemma_update_keeps_order(e, i as int, ext@);
                assert(ext_view(s.allowed_extensions@) =~= e.update(i as int, (key@, e[i as int].1.push(ext@))));
            }
        } else {
            let mut exts: Vec<String> = Vec::new();
            exts.push(ext);
            let ghost xv = exts@;
            s.allowed_extensions.insert(i, (key, exts));
            proof {
                lemma_insert_keeps_order(e, i as int, key@, xv[0]@);
                assert(strs_view(xv) =~= seq![xv[0]@]);
                assert(ext_view(s.allowed_extensions@) =~= e.insert(i as int, (key@, seq![xv[0]@])));
            }
        }
        s
    }

    /// Adds a pinned place.
    pub fn add_pin(self, path: String, icon: char, name: String) -> (res: Self)
        requires
            self.wf(),
        ensures
            res.wf(),
            res.pinned@.len() == self.pinned@.len() + 1,
            forall|i: int| 0 <= i < self.pinned@.len() ==> #[trigger] res.pinned@[i] == self.pinned@[i],
            res.pinned@.last().0 == path,
            res.pinned@.last().1@ == seq![icon],
            res.pinned@.last().2 == name,
            res.path == self.path,
            res.file_name == self.file_name,
            res.limit == self.limit,
            res.open == self.open,
            res.allow_dirs == self.allow_dirs,
            res.allow_files == self.allow_files,
            res.allowed_extensions == self.allowed_extensions,
    {
        let mut s = self;
        let icon_s = string_from_chars(&[icon]);
        s.pinned.push((path, icon_s, name));
        s
    }

    /// How many entries may be selected: any number (`0`) or at most `limit`
    /// when opening, one when saving.
    pub fn limit(self, limit: usize) -> (res: Self)
        requires
            self.wf(),
        ensures
            res.wf(),
            res.limit == if self.open {
                if limit == 0 {
                    usize::MAX
                } else {
                    limit
                }
            } else {
                1
            },
            res.path == self.path,
            res.file_name == self.file_name,
            res.open == self.open,
            res.allow_dirs == self.allow_dirs,
            res.allow_files == self.allow_files,
            res.allowed_extensions == self.allowed_extensions,
            res.pinned == self.pinned,
    {
        let mut s = self;
        s.limit = if s.open {
            if limit == 0 {
                usize::MAX
            } else {
                limit
            }
        } else {
            1
        };
        s
    }

    /// Saving (`true`) or opening; saving selects one entry.
    pub fn save_mode(self, state: bool) -> (res: Self)
        requires
            self.wf(),
        ensures
            res.wf(),
            res.open == !state,
            res.limit == if state {
                1
            } else {
                self.limit
            },
            res.path == self.path,
            res.file_name == self.file_name,
            res.allow_dirs == self.allow_dirs,
            res.allow_files == self.allow_files,
            res.allowed_extensions == self.allowed_extensions,
            res.pinned == self.pinned,
    {
        let mut s = self;
        s.open = !state;
        if state {
            s.limit = 1;
        }
        s
    }

    pub fn allow_directories(self, state: bool) -> (res: Self)
        requires
            self.wf(),
        ensures
            res.wf(),
            res.allow_dirs == state,
            res.path == self.path,
            res.file_name == self.file_name,
            res.limit == self.limit,
            res.open == self.open,
            res.allow_files == self.allow_files,
            res.allowed_extensions == self.allowed_extensions,
            res.pinned == self.pinned,
    {
        let mut s = self;
        s.allow_dirs = state;
        s
    }

    pub fn allow_files(self, state: bool) -> (res: Self)
        requires
            self.wf(),
        ensures
            res.wf(),
            res.allow_files == state,
            res.path == self.path,
            res.file_name == self.file_name,
            res.limit == self.limit,
            res.open == self.open,
            res.allow_dirs == self.allow_dirs,
            res.allowed_extensions == self.allowed_extensions,
            res.pinned == self.pinned,
    {
        let mut s = self;
        s.allow_files = state;
        s
    }
}

/// The user's folders that every dialog pins.
pub struct UserDirs {
    pub home: String,
    pub desktop: String,
    pub downloads: String,
    pub documents: String,
    pub pictures: String,
    pub videos: String,
    pub music: String,
}

/// A pinned place (path, icon, name) as text.
pub open spec fn pin_view(p: (String, String, String)) -> (Seq<char>, Seq<char>, Seq<char>) {
    (p.0@, p.1@, p.2@)
}

/// The places a dialog pins: each root of the file system (by its own
/// name, with the drive icon), then home, desktop, downloads, documents,
/// pictures, videos and music, each with its icon and name.
pub open spec fn pinned_places_of(roots: Seq<String>, d: UserDirs) -> Seq<(Seq<char>, Seq<char>, Seq<char>)> {
    roots.map_values(|r: String| (r@, seq!['\u{f0a0}'], r@)) + seq![
        (d.home@, seq!['\u{f007}'], "Home"@),
        (d.desktop@, seq!['\u{f108}'], "Desktop"@),
        (d.downloads@, seq!['\u{f019}'], "Downloads"@),
        (d.documents@, seq!['\u{f15c}'], "Documents"@),
        (d.pictures@, seq!['\u{f03e}'], "Pictures"@),
        (d.videos@, seq!['\u{f03d}'], "Videos"@),
        (d.music@, seq!['\u{f001}'], "Music"@),
    ]
}

fn icon_string(c: char) -> (s: String)
    ensures
        s@ == seq![c],
{
    let mut s = String::new();
    s.push(c);
    assert(s@ =~= seq![c]);
    s
}

/// The places pinned in every dialog, from the roots of the file system
/// (`/` on Unix, the drives that exist on Windows) and the user's folders.
pub fn pinned_places(roots: Vec<String>, dirs: UserDirs) -> (r: Vec<(String, String, String)>)
    ensures
        r@.map_values(|p: (String, String, String)| pin_view(p)) == pinned_places_of(roots@, dirs),
{
    let ghost rv = roots@.map_values(|r: String| (r@, seq!['\u{f0a0}'], r@));
    let mut r: Vec<(String, String, String)> = Vec::new();
    let mut i: usize = 0;
    while i < roots.len()
        invariant
            i <= roots@.len(),
            rv == roots@.map_values(|r: String| (r@, seq!['\u{f0a0}'], r@)),
            r@.map_values(|p: (String, String, String)| pin_view(p)) == rv.take(i as int),
        decreases roots@.len() - i,
    {
        let ghost before = r@.map_values(|p: (String, String, String)| pin_view(p));
        r.push((roots[i].clone(), icon_string('\u{f0a0}'), roots[i].clone()));
        assert(r@.map_values(|p: (String, String, String)| pin_view(p)) =~= before.push(rv[i as int]));
        assert(rv.take(i + 1) =~= rv.take(i as int).push(rv[i as int]));
        i = i + 1;
    }
    assert(rv.take(i as int) =~= rv);
    let UserDirs { home, desktop, downloads, documents, pictures, videos, music } = dirs;
    r.push((home, icon_string('\u{f007}'), "Home".to_string()));
    r.push((desktop, icon_string('\u{f108}'), "Desktop".to_string()));
    r.push((downloads, icon_string('\u{f019}'), "Downloads".to_string()));
    r.push((documents, icon_string('\u{f15c}'), "Documents".to_string()));
    r.push((pictures, icon_string('\u{f03e}'), "Pictures".to_string()));
    r.push((videos, icon_string('\u{f03d}'), "Videos".to_string()));
    r.push((music, icon_string('\u{f001}'), "Music".to_string()));
    assert(r@.map_values(|p: (String, String, String)| pin_view(p)) =~= pinned_places_of(roots@, dirs));
    r
}

impl FileDialog {
    /// A builder for a dialog at `path` suggesting `file_name`, opening one
    /// file, with the places in `pinned` (path, icon, name).
    pub fn new(path: String, file_name: String, pinned: Vec<(String, String, String)>) -> (res: FileDialogBuilder)
        ensures
            res.wf(),
            res.path == path,
            res.file_name == file_name,
            res.limit == 1,
            res.open,
            !res.allow_dirs,
            res.allow_files,
            res.allowed_extensions@.len() == 0,
            res.pinned == pinned,
    {
        FileDialogBuilder {
            path,
            file_name,
            limit: 1,
            open: true,
            allow_dirs: false,
            allow_files: true,
            allowed_extensions: Vec::new(),
            pinned,
        }
    }

    /// Well formed: the extension groups are ordered and none is empty, and at
    /// least one entry may be selected.
    pub open spec fn wf(&self) -> bool {
        groups_wf(ext_view(self.allowed_extensions@)) && self.limit >= 1
    }

    /// The extension group that the file name asks for (`select_ext`).
    pub fn select_ext(&mut self)
        requires
            old(self).wf(),
        ensures
            final(self).file_ext@ == ext_choice(ext_view(old(self).allowed_extensions@), old(self).file_name@),
            *final(self) == (FileDialog { file_ext: final(self).file_ext, ..*old(self) }),
    {
        let ghost e = ext_view(self.allowed_extensions@);
        let name = str_chars(self.file_name.as_str());
        let mut i: usize = 0;
        assert(e.skip(0) =~= e);
        while i < self.allowed_extensions.len()
            invariant
                *self == *old(self),
                e == ext_view(self.allowed_extensions@),
                name@ == self.file_name@,
                i <= e.len(),
                ext_choice(e, name@) == ext_choice(e.skip(i as int), name@),
            decreases e.len() - i,
        {
            let n = self.allowed_extensions[i].1.len();
            let mut j: usize = 0;
            proof {
                assert(e.skip(i as int)[0] == e[i as int]);
                assert(e.skip(i as int).drop_first() =~= e.skip(i + 1));
            }
            while j < n
                invariant
                    *self == *old(self),
                    e == ext_view(self.allowed_extensions@),
                    name@ == self.file_name@,
                    i < e.len(),
                    ext_choice(e, name@) == ext_choice(e.skip(i as int), name@),
                    n == e[i as int].1.len(),
                    j <= n,
                    forall|k: int| 0 <= k < j ==> !ends_with(name@, #[trigger] e[i as int].1[k]),
                decreases n - j,
            {
                let ext = str_chars(self.allowed_extensions[i].1[j].as_str());
                proof {
                    assert(e[i as int].1[j as int] == self.allowed_extensions@[i as int].1@[j as int]@);
                }
                if chars_ends_with(&name, &ext) {
                    self.file_ext = self.allowed_extensions[i].0.clone();
                    proof {
                        assert(group_matches(e[i as int].1, name@));
                        assert(e.skip(i as int)[0] == e[i as int]);
                    }
                    return;
                }
                j = j + 1;
            }
            i = i + 1;
        }
        assert(e.skip(i as int) =~= Seq::<(Seq<char>, Seq<Seq<char>>)>::empty());
        self.file_ext = String::new();
    }

}

impl FileDialog {
    /// Goes to `path` as a new place to come back to (a pinned place, the
    /// parent folder): both the path and the path to come back to become it.
    pub fn go_to(&mut self, path: String)
        ensures
            *final(self) == (FileDialog { path: path, prev_path: path, ..*old(self) }),
    {
        self.prev_path = path.clone();
        self.path = path;
    }

    /// Enters the listed folder at `index` (a double click): the path becomes
    /// its path, the path to come back to stays.  Answers whether there was
    /// such a folder; without one nothing changes.
    pub fn enter_dir(&mut self, index: usize) -> (entered: bool)
        ensures
            entered == (index < old(self).cur_dirs@.len()),
            entered ==> *final(self) == (FileDialog { path: old(self).cur_dirs@[index as int].path, ..*old(self) }),
            !entered ==> *final(self) == *old(self),
    {
        if index < self.cur_dirs.len() {
            self.path = self.cur_dirs[index].path.clone();
            true
        } else {
            false
        }
    }

    /// After the folder at the path was read: when it could not be, the
    /// path goes back to the path to come back to.
    pub fn listed(&mut self, ok: bool)
        ensures
            ok ==> *final(self) == *old(self),
            !ok ==> *final(self) == (FileDialog { path: old(self).prev_path, ..*old(self) }),
    {
        if !ok {
            self.path = self.prev_path.clone();
        }
    }

    /// Starting to type in the path bar: the path typed over is the one to
    /// come back to.
    pub fn begin_path_edit(&mut self)
        ensures
            *final(self) == (FileDialog { prev_path: old(self).path, ..*old(self) }),
    {
        self.prev_path = self.path.clone();
    }

    /// Leaving the path bar, after the typed folder was read (`ok` says
    /// whether it could be): editing ends, and a folder that could not be
    /// read gives way to the path to come back to.
    pub fn leave_path_bar(&mut self, ok: bool)
        ensures
            ok ==> *final(self) == (FileDialog { editing_path: false, ..*old(self) }),
            !ok ==> *final(self) == (FileDialog { editing_path: false, path: old(self).prev_path, ..*old(self) }),
    {
        self.editing_path = false;
        if !ok {
            self.path = self.prev_path.clone();
        }
    }
}

impl FileDialog {
    /// The file is shown under the current search text.
    pub fn shows(&self, name: &str) -> (r: bool)
        ensures
            r == search_shows(self.search@, name@),
    {
        let search = str_chars(lowercase(self.search.as_str()).as_str());
        if search.len() == 0 {
            return true;
        }
        let lname = str_chars(lowercase(name).as_str());
        chars_contain(&lname, &search)
    }

    /// Puts `path` into the selection as a click does, shift held or not.
    pub fn select_path(&mut self, path: String, shift: bool)
        ensures
            final(self).selected@ == selected_after(old(self).selected@, path, shift, old(self).limit),
            *final(self) == (FileDialog { selected: final(self).selected, ..*old(self) }),
    {
        if shift {
            self.selected.insert(0, path);
            self.selected.truncate(self.limit);
        } else {
            self.selected.clear();
            self.selected.push(path);
        }
    }

    /// A click on the directory at `index`: it is selected where directories
    /// may be.
    pub fn click_dir(&mut self, index: usize, shift: bool)
        requires
            index < old(self).cur_dirs@.len(),
        ensures
            old(self).allow_dirs ==> final(self).selected@ == selected_after(
                old(self).selected@,
                old(self).cur_dirs@[index as int].path,
                shift,
                old(self).limit,
            ),
            !old(self).allow_dirs ==> final(self).selected == old(self).selected,
            *final(self) == (FileDialog { selected: final(self).selected, ..*old(self) }),
    {
        if self.allow_dirs {
            let p = self.cur_dirs[index].path.clone();
            self.select_path(p, shift);
        }
    }

    /// A click on the file at `index`: it is selected, and when it is all that
    /// is selected its name becomes the file name and the extension group
    /// follows it.  Answers whether that happened.
    pub fn click_file(&mut self, index: usize, shift: bool) -> (named: bool)
        requires
            old(self).wf(),
            index < old(self).cur_files@.len(),
        ensures
            final(self).wf(),
            final(self).selected@ == selected_after(
                old(self).selected@,
                old(self).cur_files@[index as int].path,
                shift,
                old(self).limit,
            ),
            named == (final(self).selected@.len() == 1),
            named ==> final(self).file_name == old(self).cur_files@[index as int].name,
            named ==> final(self).file_ext@ == ext_choice(
                ext_view(old(self).allowed_extensions@),
                old(self).cur_files@[index as int].name@,
            ),
            !named ==> final(self).file_name == old(self).file_name && final(self).file_ext == old(self).file_ext,
            *final(self) == (FileDialog {
                selected: final(self).selected,
                file_name: final(self).file_name,
                file_ext: final(self).file_ext,
                ..*old(self)
            }),
    {
        let p = self.cur_files[index].path.clone();
        self.select_path(p, shift);
        if self.selected.len() == 1 {
            self.file_name = self.cur_files[index].name.clone();
            self.select_ext();
            true
        } else {
            false
        }
    }

    /// Choosing the extension group at `index` from the list: unless the file
    /// name already ends with its first extension, the name is cut at its first
    /// dot and given that extension, and the group becomes the chosen one.
    pub fn choose_ext(&mut self, index: usize)
        requires
            old(self).wf(),
            index < old(self).allowed_extensions@.len(),
        ensures
            ({
                let g = ext_view(old(self).allowed_extensions@)[index as int];
                if ends_with(old(self).file_name@, g.1[0]) {
                    *final(self) == *old(self)
                } else {
                    &&& final(self).file_name@ == renamed(old(self).file_name@, g.1[0])
                    &&& final(self).file_ext@ == g.0
                    &&& *final(self) == (FileDialog {
                        file_name: final(self).file_name,
                        file_ext: final(self).file_ext,
                        ..*old(self)
                    })
                }
            }),
    {
        let ghost g = ext_view(self.allowed_extensions@)[index as int];
        proof {
            assert(g.1.len() > 0);
            assert(g.1 == strs_view(self.allowed_extensions@[index as int].1@));
        }
        let ext = str_chars(self.allowed_extensions[index].1[0].as_str());
        let name = str_chars(self.file_name.as_str());
        if !chars_ends_with(&name, &ext) {
            let base = chars_before_first(&name, '.');
            let mut new_name = base.clone();
            if base.len() > 0 {
                let mut k: usize = 0;
                while k < ext.len()
                    invariant
                        k <= ext@.len(),
                        new_name@ == base@ + ext@.take(k as int),
                    decreases ext@.len() - k,
                {
                    new_name.push(ext[k]);
                    proof {
                        assert(ext@.take(k + 1) =~= ext@.take(k as int).push(ext@[k as int]));
                    }
                    k = k + 1;
                }
                assert(ext@.take(ext@.len() as int) =~= ext@);
            }
            self.file_name = string_from_chars(new_name.as_slice());
            self.file_ext = self.allowed_extensions[index].0.clone();
        }
    }

    /// The label of the extension group at `index` in the list.
    pub fn ext_label(&self, index: usize) -> (r: String)
        requires
            index < self.allowed_extensions@.len(),
        ensures
            ({
                let g = ext_view(self.allowed_extensions@)[index as int];
                r@ == group_label(g.0, g.1)
            }),
    {
        let ghost g = ext_view(self.allowed_extensions@)[index as int];
        let name = str_chars(self.allowed_extensions[index].0.as_str());
        let exts = &self.allowed_extensions[index].1;
        proof {
            assert(g.1 == strs_view(exts@));
        }
        if exts.len() == 1 && exts[0] == self.allowed_extensions[index].0 {
            return self.allowed_extensions[index].0.clone();
        }
        let mut out = name.clone();
        out.push(' ');
        out.push('(');
        let ghost pre = out@;
        let mut i: usize = 0;
        while i < exts.len()
            invariant
                g.1 == strs_view(exts@),
                i <= exts@.len(),
                out@ == pre + joined(g.1.take(i as int), seq![',', ' ']),
            decreases exts@.len() - i,
        {
            let part = str_chars(exts[i].as_str());
            let ghost before = out@;
            if i > 0 {
                out.push(',');
                out.push(' ');
            }
            let mut k: usize = 0;
            let ghost mid = out@;
            while k < part.len()
                invariant
                    k <= part@.len(),
                    out@ == mid + part@.take(k as int),
                decreases part@.len() - k,
            {
                out.push(part[k]);
                proof {
                    assert(part@.take(k + 1) =~= part@.take(k as int).push(part@[k as int]));
                }
                k = k + 1;
            }
            proof {
                assert(part@.take(part@.len() as int) =~= part@);
                let t = g.1.take(i + 1);
                assert(t.drop_last() =~= g.1.take(i as int));
                assert(t.last() == part@);
                if i == 0 {
                    assert(joined(g.1.take(0), seq![',', ' ']) =~= Seq::<char>::empty());
                    assert(joined(t, seq![',', ' ']) == part@);
                    assert(out@ =~= pre + joined(t, seq![',', ' ']));
                } else {
                    assert(out@ =~= pre + joined(t, seq![',', ' ']));
                }
            }
            i = i + 1;
        }
        out.push(')');
        proof {
            assert(g.1.take(exts@.len() as int) =~= g.1);
            assert(out@ =~= g.0 + seq![' ', '('] + joined(g.1, seq![',', ' ']) + seq![')']);
        }
        string_from_chars(out.as_slice())
    }

    /// The Open / Save button: the typed path `candidate` (the directory joined
    /// with the file name) goes first into the selection when saving or when
    /// it exists, unless it is selected already; then the selection is the
    /// answer, if there is one.
    pub fn confirm(&mut self, candidate: String, exists: bool) -> (r: FileDialogResult)
        ensures
            final(self).selected@ == if (!old(self).open || exists) && !strs_view(old(self).selected@).contains(candidate@) {
                selected_after(old(self).selected@, candidate, true, old(self).limit)
            } else {
                old(self).selected@
            },
            *final(self) == (FileDialog { selected: final(self).selected, ..*old(self) }),
            match r {
                FileDialogResult::Success(v) => final(self).selected@.len() > 0 && v@ == final(self).selected@,
                FileDialogResult::Busy => final(self).selected@.len() == 0,
                FileDialogResult::Canceled => false,
            },
    {
        let mut present = false;
        let mut i: usize = 0;
        while i < self.selected.len()
            invariant
                *self == *old(self),
                i <= self.selected@.len(),
                present == exists|k: int| 0 <= k < i && (#[trigger] self.selected@[k])@ == candidate@,
            decreases self.selected@.len() - i,
        {
            if self.selected[i] == candidate {
                present = true;
            }
            i = i + 1;
        }
        proof {
            if present {
                let k = choose|k: int| 0 <= k < i && (#[trigger] self.selected@[k])@ == candidate@;
                assert(strs_view(self.selected@)[k] == candidate@);
            } else {
                assert forall|k: int| 0 <= k < self.selected@.len() implies strs_view(self.selected@)[k] != candidate@ by {
                    assert(strs_view(self.selected@)[k] == self.selected@[k]@);
                }
            }
        }
        if (!self.open || exists) && !present {
            self.select_path(candidate, true);
        }
        if self.selected.len() > 0 {
            FileDialogResult::Success(self.selected.clone())
        } else {
            FileDialogResult::Busy
        }
    }
}

fn time_key_exec(t: Timestamp) -> (r: Vec<u64>)
    ensures
        r@ == time_key(t),
{
    let shifted: i128 = t.secs as i128 + 0x8000_0000_0000_0000i128;
    let mut r: Vec<u64> = Vec::new();
    r.push(shifted as u64);
    r.push(t.nanos as u64);
    assert(r@ =~= time_key(t));
    r
}

fn lower_codes(s: &str) -> (r: Vec<u64>)
    ensures
        r@ == codes(lowercase_of(s@)),
{
    codes_of(&str_chars(lowercase(s).as_str()))
}

fn dir_keys_exec(d: &Vec<DirEntry>) -> (r: Vec<Vec<u64>>)
    ensures
        key_views(r@) == dir_keys(d@),
{
    let mut r: Vec<Vec<u64>> = Vec::new();
    let mut i: usize = 0;
    while i < d.len()
        invariant
            i <= d@.len(),
            key_views(r@) == dir_keys(d@.take(i as int)),
        decreases d@.len() - i,
    {
        let k = lower_codes(d[i].name.as_str());
        let ghost old_r = r@;
        r.push(k);
        proof {
            assert(key_views(r@) =~= key_views(old_r).push(k@));
            assert(dir_keys(d@.take(i + 1)) =~= dir_keys(d@.take(i as int)).push(dir_key(d@[i as int])));
        }
        i = i + 1;
    }
    assert(d@.take(i as int) =~= d@);
    r
}

fn file_key_exec(column: i16, f: &FileEntry) -> (r: Vec<u64>)
    ensures
        r@ == file_key(column, *f),
{
    if column == 0 {
        lower_codes(f.name.as_str())
    } else if column == 1 {
        time_key_exec(f.modified)
    } else if column == 2 {
        time_key_exec(f.created)
    } else if column == 3 {
        let mut r: Vec<u64> = Vec::new();
        r.push(f.size);
        assert(r@ =~= seq![f.size]);
        r
    } else {
        let r: Vec<u64> = Vec::new();
        assert(r@ =~= Seq::<u64>::empty());
        r
    }
}

fn file_keys_exec(column: i16, f: &Vec<FileEntry>) -> (r: Vec<Vec<u64>>)
    ensures
        key_views(r@) == file_keys(column, f@),
{
    let mut r: Vec<Vec<u64>> = Vec::new();
    let mut i: usize = 0;
    while i < f.len()
        invariant
            i <= f@.len(),
            key_views(r@) == file_keys(column, f@.take(i as int)),
        decreases f@.len() - i,
    {
        let k = file_key_exec(column, &f[i]);
        let ghost old_r = r@;
        r.push(k);
        proof {
            assert(key_views(r@) =~= key_views(old_r).push(k@));
            assert(file_keys(column, f@.take(i + 1)) =~= file_keys(column, f@.take(i as int)).push(file_key(column, f@[i as int])));
        }
        i = i + 1;
    }
    assert(f@.take(i as int) =~= f@);
    r
}

/// Sorts stably by `keys` and reverses when `descending`.
fn sort_directed<T>(items: Vec<T>, keys: Vec<Vec<u64>>, descending: bool) -> (res: Vec<T>)
    requires
        keys@.len() == items@.len(),
    ensures
        sorted_in(items@, res@, key_views(keys@), descending),
{
    let sorted = sort_by_keys(items, keys);
    if descending {
        let r = reversed(sorted);
        proof {
            assert(r@.reverse() =~= sorted@);
        }
        r
    } else {
        sorted
    }
}

impl FileDialog {
    /// Orders the listed entries: directories by lowercase name, files by the
    /// sort column, both reversed when descending.
    pub fn sort(&mut self)
        ensures
            sorted_in(
                old(self).cur_dirs@,
                final(self).cur_dirs@,
                dir_keys(old(self).cur_dirs@),
                old(self).sort_dir == SortDirection::Descending,
            ),
            sorted_in(
                old(self).cur_files@,
                final(self).cur_files@,
                file_keys(old(self).sort_column, old(self).cur_files@),
                old(self).sort_dir == SortDirection::Descending,
            ),
            *final(self) == (FileDialog { cur_dirs: final(self).cur_dirs, cur_files: final(self).cur_files, ..*old(self) }),
    {
        let descending = self.sort_dir == SortDirection::Descending;
        let dk = dir_keys_exec(&self.cur_dirs);
        let fk = file_keys_exec(self.sort_column, &self.cur_files);
        assert(key_views(fk@).len() == fk@.len());
        assert(file_keys(self.sort_column, self.cur_files@).len() == self.cur_files@.len());
        assert(key_views(dk@).len() == dk@.len());
        assert(dir_keys(self.cur_dirs@).len() == self.cur_dirs@.len());
        let mut dirs: Vec<DirEntry> = Vec::new();
        std::mem::swap(&mut dirs, &mut self.cur_dirs);
        let mut files: Vec<FileEntry> = Vec::new();
        std::mem::swap(&mut files, &mut self.cur_files);
        self.cur_dirs = sort_directed(dirs, dk, descending);
        self.cur_files = sort_directed(files, fk, descending);
    }

    /// Changes the sort column and direction, ordering again when either
    /// changed.
    pub fn set_sort(&mut self, column: i16, dir: SortDirection)
        ensures
            final(self).sort_column == column,
            final(self).sort_dir == dir,
            column == old(self).sort_column && dir == old(self).sort_dir ==> *final(self) == *old(self),
            !(column == old(self).sort_column && dir == old(self).sort_dir) ==> {
                &&& sorted_in(old(self).cur_dirs@, final(self).cur_dirs@, dir_keys(old(self).cur_dirs@), dir == SortDirection::Descending)
                &&& sorted_in(old(self).cur_files@, final(self).cur_files@, file_keys(column, old(self).cur_files@), dir == SortDirection::Descending)
            },
            *final(self) == (FileDialog {
                cur_dirs: final(self).cur_dirs,
                cur_files: final(self).cur_files,
                sort_column: final(self).sort_column,
                sort_dir: final(self).sort_dir,
                ..*old(self)
            }),
    {
        let mut changed = false;
        if column != self.sort_column {
            self.sort_column = column;
            changed = true;
        }
        if dir != self.sort_dir {
            self.sort_dir = dir;
            changed = true;
        }
        if changed {
            self.sort();
        }
    }

    /// A file named `name` passes the extension filter.
    fn name_allowed_exec(&self, name: &Vec<char>) -> (r: bool)
        ensures
            r == name_allowed(ext_view(self.allowed_extensions@), name@),
    {
        let ghost e = ext_view(self.allowed_extensions@);
        if self.allowed_extensions.len() == 0 {
            return true;
        }
        let mut i: usize = 0;
        while i < self.allowed_extensions.len()
            invariant
                e == ext_view(self.allowed_extensions@),
                i <= e.len(),
                forall|k: int| 0 <= k < i ==> !group_matches(#[trigger] e[k].1, name@),
            decreases e.len() - i,
        {
            let n = self.allowed_extensions[i].1.len();
            let mut j: usize = 0;
            while j < n
                invariant
                    e == ext_view(self.allowed_extensions@),
                    i < e.len(),
                    n == e[i as int].1.len(),
                    j <= n,
                    forall|k: int| 0 <= k < j ==> !ends_with(name@, #[trigger] e[i as int].1[k]),
                decreases n - j,
            {
                let ext = str_chars(self.allowed_extensions[i].1[j].as_str());
                proof {
                    assert(e[i as int].1[j as int] == self.allowed_extensions@[i as int].1@[j as int]@);
                }
                if chars_ends_with(name, &ext) {
                    assert(group_matches(e[i as int].1, name@));
                    return true;
                }
                j = j + 1;
            }
            i = i + 1;
        }
        false
    }

    /// Lists the entries of the directory just read: its directories, and its
    /// files where files are wanted and their extension is allowed, each file
    /// with its icon; then orders them and clears the selection.
    pub fn load_entries(&mut self, entries: Vec<Listing>)
        ensures
            ({
                let d = listed_dirs(entries@);
                let f = listed_files(entries@, ext_view(old(self).allowed_extensions@), old(self).allow_files);
                let desc = old(self).sort_dir == SortDirection::Descending;
                &&& sorted_in(d, final(self).cur_dirs@, dir_keys(d), desc)
                &&& sorted_in(f, final(self).cur_files@, file_keys(old(self).sort_column, f), desc)
            }),
            final(self).selected@.len() == 0,
            *final(self) == (FileDialog {
                cur_dirs: final(self).cur_dirs,
                cur_files: final(self).cur_files,
                selected: final(self).selected,
                ..*old(self)
            }),
    {
        let ghost orig = entries@;
        let ghost e = ext_view(self.allowed_extensions@);
        let n = entries.len();
        let mut entries = entries;
        let mut dirs: Vec<DirEntry> = Vec::new();
        let mut files: Vec<FileEntry> = Vec::new();
        let mut i: usize = 0;
        while i < n
            invariant
                *self == *old(self),
                e == ext_view(self.allowed_extensions@),
                n == orig.len(),
                i <= n,
                entries@ == orig.skip(i as int),
                dirs@ == listed_dirs(orig.take(i as int)),
                files@ == listed_files(orig.take(i as int), e, self.allow_files),
            decreases n - i,
        {
            let l = entries.remove(0);
            proof {
                assert(l == orig[i as int]);
                assert(orig.take(i + 1).drop_last() =~= orig.take(i as int));
                assert(orig.take(i + 1).last() == l);
            }
            if l.is_dir {
                dirs.push(DirEntry { path: l.path, name: l.name });
            } else if l.is_file && self.allow_files {
                let chars = str_chars(l.name.as_str());
                if self.name_allowed_exec(&chars) {
                    let (icon, icon_clr) = file_icon_exec(&chars);
                    files.push(
                        FileEntry {
                            path: l.path,
                            icon,
                            icon_clr,
                            name: l.name,
                            created: l.created,
                            modified: l.modified,
                            size: l.size,
                        },
                    );
                }
            }
            proof {
                assert(entries@ =~= orig.skip(i + 1));
            }
            i = i + 1;
        }
        proof {
            assert(orig.take(n as int) =~= orig);
        }
        self.cur_dirs = dirs;
        self.cur_files = files;
        self.sort();
        self.selected.clear();
    }
}

/// Adding to an existing group keeps the groups ordered.
proof fn lemma_update_keeps_order(e: Seq<(Seq<char>, Seq<Seq<char>>)>, i: int, x: Seq<char>)
    requires
        groups_wf(e),
        0 <= i < e.len(),
    ensures
        groups_wf(e.update(i, (e[i].0, e[i].1.push(x)))),
{
    let u = e.update(i, (e[i].0, e[i].1.push(x)));
    assert forall|a: int, b: int| 0 <= a < b < u.len() implies lex_lt(codes(#[trigger] u[a].0), codes(#[trigger] u[b].0)) by {
        assert(u[a].0 == e[a].0);
        assert(u[b].0 == e[b].0);
    }
}

/// A new group at `group_pos` keeps the groups ordered.
proof fn lemma_insert_keeps_order(e: Seq<(Seq<char>, Seq<Seq<char>>)>, p: int, k: Seq<char>, x: Seq<char>)
    requires
        groups_wf(e),
        p == group_pos(e, k),
        !(p < e.len() && e[p].0 == k),
    ensures
        0 <= p <= e.len(),
        groups_wf(e.insert(p, (k, seq![x]))),
{
    lemma_group_pos(e, k);
    let u = e.insert(p, (k, seq![x]));
    // every group from p on comes strictly after k
    assert forall|j: int| p <= j < e.len() implies !lex_le(codes(#[trigger] e[j].0), codes(k)) by {
        if lex_le(codes(e[j].0), codes(k)) {
            if j == p {
                lemma_lex_antisym(codes(e[p].0), codes(k));
                lemma_codes_injective(e[p].0, k);
            } else {
                assert(lex_lt(codes(e[p].0), codes(e[j].0)));
                lemma_lex_trans(codes(e[j].0), codes(k), codes(e[p].0));
            }
        }
    }
    assert forall|a: int, b: int| 0 <= a < b < u.len() implies lex_lt(codes(#[trigger] u[a].0), codes(#[trigger] u[b].0)) by {
        if b < p {
            assert(u[a] == e[a] && u[b] == e[b]);
        } else if b == p {
            assert(u[a] == e[a]);
        } else if a < p {
            assert(u[a] == e[a] && u[b] == e[b - 1]);
            assert(!lex_le(codes(e[b - 1].0), codes(k)));
            if lex_le(codes(e[b - 1].0), codes(e[a].0)) {
                lemma_lex_total(codes(k), codes(e[a].0));
                lemma_lex_trans(codes(e[b - 1].0), codes(e[a].0), codes(k));
            }
        } else if a == p {
            assert(u[b] == e[b - 1]);
            assert(!lex_le(codes(e[b - 1].0), codes(k)));
        } else {
            assert(u[a] == e[a - 1] && u[b] == e[b - 1]);
        }
    }
}

/// What `group_pos` is: every group before it comes before `k`, the group at
/// it does not.
proof fn lemma_group_pos(e: Seq<(Seq<char>, Seq<Seq<char>>)>, k: Seq<char>)
    ensures
        0 <= group_pos(e, k) <= e.len(),
        forall|i: int| 0 <= i < group_pos(e, k) ==> lex_lt(codes(#[trigger] e[i].0), codes(k)),
        group_pos(e, k) < e.len() ==> lex_le(codes(k), codes(e[group_pos(e, k)].0)),
    decreases e.len(),
{
    if e.len() > 0 {
        lemma_group_pos(e.drop_first(), k);
        if lex_lt(codes(e[0].0), codes(k)) {
            assert forall|i: int| 0 <= i < group_pos(e, k) implies lex_lt(codes(#[trigger] e[i].0), codes(k)) by {
                if i > 0 {
                    assert(e[i] == e.drop_first()[i - 1]);
                }
            }
        }
    }
}

/// Adding extension `x` to group `k` appends it to that group, or makes a
/// group of it alone where there was none; every other group stays as it was.
pub proof fn lemma_add_extension_lookup(
    e: Seq<(Seq<char>, Seq<Seq<char>>)>,
    k: Seq<char>,
    x: Seq<char>,
    other: Seq<char>,
)
    requires
        groups_wf(e),
    ensures
        group_of(with_ext(e, k, x), k) == Some(
            match group_of(e, k) {
                Some(g) => g.push(x),
                None => seq![x],
            },
        ),
        other != k ==> group_of(with_ext(e, k, x), other) == group_of(e, other),
{
    lemma_group_pos(e, k);
    let p = group_pos(e, k);
    if p < e.len() && e[p].0 == k {
        lemma_add_to_existing(e, k, x, other);
    } else {
        lemma_add_new_group(e, k, x, other);
    }
}

proof fn lemma_add_to_existing(e: Seq<(Seq<char>, Seq<Seq<char>>)>, k: Seq<char>, x: Seq<char>, other: Seq<char>)
    requires
        groups_wf(e),
        group_pos(e, k) < e.len(),
        e[group_pos(e, k)].0 == k,
    ensures
        group_of(with_ext(e, k, x), k) == Some(group_of(e, k).unwrap().push(x)),
        group_of(e, k) is Some,
        other != k ==> group_of(with_ext(e, k, x), other) == group_of(e, other),
{
    lemma_group_pos(e, k);
    let p = group_pos(e, k);
    let r = with_ext(e, k, x);
    lemma_update_keeps_order(e, p, x);
    lemma_group_index(e, p);
    lemma_group_index(r, p);
    if other != k {
        lemma_group_same_names(e, r, other);
    }
}

proof fn lemma_add_new_group(e: Seq<(Seq<char>, Seq<Seq<char>>)>, k: Seq<char>, x: Seq<char>, other: Seq<char>)
    requires
        groups_wf(e),
        !(group_pos(e, k) < e.len() && e[group_pos(e, k)].0 == k),
    ensures
        group_of(e, k) is None,
        group_of(with_ext(e, k, x), k) == Some(seq![x]),
        other != k ==> group_of(with_ext(e, k, x), other) == group_of(e, other),
{
    lemma_group_pos(e, k);
    let p = group_pos(e, k);
    let r = with_ext(e, k, x);
    lemma_insert_keeps_order(e, p, k, x);
    lemma_group_index(r, p);
    lemma_not_named(e, k);
    if other != k {
        lemma_inserted_other(e, k, x, other);
    }
}

/// Where `group_pos` finds no group named `k`, there is none.
proof fn lemma_not_named(e: Seq<(Seq<char>, Seq<Seq<char>>)>, k: Seq<char>)
    requires
        groups_wf(e),
        !(group_pos(e, k) < e.len() && e[group_pos(e, k)].0 == k),
    ensures
        forall|i: int| 0 <= i < e.len() ==> (#[trigger] e[i]).0 != k,
{
    lemma_group_pos(e, k);
    let p = group_pos(e, k);
    assert forall|i: int| 0 <= i < e.len() implies (#[trigger] e[i]).0 != k by {
        if i < p {
            assert(lex_lt(codes(e[i].0), codes(k)));
            if e[i].0 == k {
                crate::sort::lemma_lex_refl(codes(k));
            }
        } else {
            lemma_group_after_pos(e, k, i);
        }
    }
}

/// A new group named `k` leaves what other names find alone.
proof fn lemma_inserted_other(e: Seq<(Seq<char>, Seq<Seq<char>>)>, k: Seq<char>, x: Seq<char>, other: Seq<char>)
    requires
        groups_wf(e),
        !(group_pos(e, k) < e.len() && e[group_pos(e, k)].0 == k),
        other != k,
    ensures
        group_of(with_ext(e, k, x), other) == group_of(e, other),
{
    lemma_group_pos(e, k);
    let p = group_pos(e, k);
    let r = with_ext(e, k, x);
    lemma_insert_keeps_order(e, p, k, x);
    assert(r == e.insert(p, (k, seq![x])));
    if exists|j: int| 0 <= j < e.len() && (#[trigger] e[j]).0 == other {
        let j = choose|j: int| 0 <= j < e.len() && (#[trigger] e[j]).0 == other;
        lemma_group_index(e, j);
        if j < p {
            assert(r[j] == e[j]);
            lemma_group_index(r, j);
        } else {
            assert(r[j + 1] == e[j]);
            lemma_group_index(r, j + 1);
        }
    } else {
        assert forall|i: int| 0 <= i < r.len() implies (#[trigger] r[i]).0 != other by {
            if i < p {
                assert(r[i] == e[i]);
            } else if i > p {
                assert(r[i] == e[i - 1]);
            }
        }
    }
}

/// In ordered groups the group at `i` is what `group_of` finds under its name.
proof fn lemma_group_index(e: Seq<(Seq<char>, Seq<Seq<char>>)>, i: int)
    requires
        groups_wf(e),
        0 <= i < e.len(),
    ensures
        group_of(e, e[i].0) == Some(e[i].1),
{
    let j = choose|j: int| 0 <= j < e.len() && (#[trigger] e[j]).0 == e[i].0;
    if j != i {
        if j < i {
            assert(lex_lt(codes(e[j].0), codes(e[i].0)));
        } else {
            assert(lex_lt(codes(e[i].0), codes(e[j].0)));
        }
        crate::sort::lemma_lex_refl(codes(e[i].0));
    }
}

/// A group from `group_pos` on is not named `k` unless it sits at `group_pos`.
proof fn lemma_group_after_pos(e: Seq<(Seq<char>, Seq<Seq<char>>)>, k: Seq<char>, i: int)
    requires
        groups_wf(e),
        group_pos(e, k) <= i < e.len(),
        !(group_pos(e, k) < e.len() && e[group_pos(e, k)].0 == k),
    ensures
        e[i].0 != k,
{
    lemma_group_pos(e, k);
    let p = group_pos(e, k);
    if e[i].0 == k {
        if i > p {
            assert(lex_lt(codes(e[p].0), codes(e[i].0)));
            crate::sort::lemma_lex_refl(codes(k));
            lemma_lex_total(codes(k), codes(e[p].0));
            lemma_lex_antisym(codes(k), codes(e[p].0));
            if lex_le(codes(e[p].0), codes(k)) {
                lemma_codes_injective(k, e[p].0);
            }
        }
    }
}

/// Replacing one group's extensions leaves `group_of` of other names alone.
proof fn lemma_group_same_names(e: Seq<(Seq<char>, Seq<Seq<char>>)>, r: Seq<(Seq<char>, Seq<Seq<char>>)>, other: Seq<char>)
    requires
        groups_wf(e),
        groups_wf(r),
        r.len() == e.len(),
        forall|i: int| 0 <= i < e.len() ==> (#[trigger] r[i]).0 == e[i].0,
        forall|i: int| 0 <= i < e.len() && e[i].0 == other ==> #[trigger] r[i] == e[i],
    ensures
        group_of(r, other) == group_of(e, other),
{
    if exists|i: int| 0 <= i < e.len() && (#[trigger] e[i]).0 == other {
        let i = choose|i: int| 0 <= i < e.len() && (#[trigger] e[i]).0 == other;
        lemma_group_index(e, i);
        lemma_group_index(r, i);
    } else {
        assert forall|i: int| 0 <= i < r.len() implies (#[trigger] r[i]).0 != other by {
            assert(r[i].0 == e[i].0);
        }
    }
}

/// A click never selects more entries than the limit allows, and the
/// clicked entry is always selected first.
pub proof fn lemma_selection_within_limit(sel: Seq<String>, path: String, shift: bool, limit: usize)
    requires
        limit >= 1,
        sel.len() <= limit,
    ensures
        selected_after(sel, path, shift, limit).len() <= limit,
        selected_after(sel, path, shift, limit).len() >= 1,
        selected_after(sel, path, shift, limit)[0] == path,
{
}

} // verus!
