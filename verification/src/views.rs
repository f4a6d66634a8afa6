//! The explorer's views as data: what a view is called, which extensions it
//! exports, which viewer a path opens, where a new tab goes, and the channel
//! filter of the texture preview.  Loading files and drawing stay with the
//! caller.
use vstd::prelude::*;
use crate::text::{str_chars, string_from_chars, last_piece, chars_last_piece, ends_with, chars_ends_with, chars_eq};

verus! {

/// A view that failed to open: the path, where it was read from, and why.
pub struct Error {
    pub name: String,
    pub path: String,
    pub real_path: Option<String>,
    pub err: String,
}

/// A file shown as raw data.
pub struct Generic {
    pub name: String,
    pub path: String,
    pub real_path: Option<String>,
    pub data: Option<Vec<u8>>,
}

/// The view that manages a mod.
pub struct ModManage {
    pub name: String,
    pub path: String,
    pub notif: Option<String>,
}

/// The settings view.
pub struct Settings {}

pub open spec fn opt_view(o: Option<String>) -> Option<Seq<char>> {
    match o {
        Some(s) => Some(s@),
        None => None,
    }
}

fn clone_opt(o: &Option<String>) -> (r: Option<String>)
    ensures
        opt_view(r) == opt_view(*o),
{
    match o {
        Some(s) => Some(s.clone()),
        None => None,
    }
}

impl Error {
    /// The view of a file at `path` (read from `real_path` where given) that
    /// could not be opened for the reason `err`; it is named after the last
    /// piece of the path.
    pub fn new(path: &str, real_path: Option<String>, err: String) -> (r: Error)
        ensures
            r.name@ == last_piece(path@, '/'),
            r.path@ == path@,
            opt_view(r.real_path) == opt_view(real_path),
            r.err == err,
    {
        Error { name: last_piece_string(path, '/'), path: path.to_owned(), real_path, err }
    }

    /// The extensions the view exports: that of its name.
    pub fn exts(&self) -> (r: Vec<String>)
        ensures
            r@.len() == 1,
            r@[0]@ == last_piece(self.name@, '.'),
    {
        let mut r: Vec<String> = Vec::new();
        r.push(last_piece_string(self.name.as_str(), '.'));
        r
    }
}

impl Generic {
    /// The view of the file at `path` (read from `real_path` where given)
    /// holding `data`.
    pub fn new(path: &str, real_path: Option<String>, data: Vec<u8>) -> (r: Generic)
        ensures
            r.name@ == last_piece(path@, '/'),
            r.path@ == path@,
            opt_view(r.real_path) == opt_view(real_path),
            r.data == Some(data),
    {
        Generic { name: last_piece_string(path, '/'), path: path.to_owned(), real_path, data: Some(data) }
    }

    pub fn exts(&self) -> (r: Vec<String>)
        ensures
            r@.len() == 1,
            r@[0]@ == last_piece(self.name@, '.'),
    {
        let mut r: Vec<String> = Vec::new();
        r.push(last_piece_string(self.name.as_str(), '.'));
        r
    }
}

impl ModManage {
    pub fn new(name: String, path: String) -> (r: ModManage)
        ensures
            r.name == name,
            r.path == path,
            r.notif is None,
    {
        ModManage { name, path, notif: None }
    }
}

impl Settings {
    pub fn new() -> (r: Settings) {
        Settings {  }
    }

    /// The checkbox in front of the game install location: checking it
    /// starts an empty location, unchecking it drops the location, and a
    /// box left as it was keeps the location.
    pub fn set_custom_install(location: &mut Option<String>, checked: bool)
        ensures
            checked == old(location).is_some() ==> *final(location) == *old(location),
            checked && old(location).is_none() ==> (*final(location) matches Some(l) && l@.len() == 0),
            !checked ==> final(location).is_none(),
    {
        if checked != location.is_some() {
            if checked {
                *location = Some(String::new());
            } else {
                *location = None;
            }
        }
    }
}

fn last_piece_string(s: &str, c: char) -> (r: String)
    ensures
        r@ == last_piece(s@, c),
{
    let cs = str_chars(s);
    let p = chars_last_piece(&cs, c);
    string_from_chars(p.as_slice())
}

/// The viewer a path opens in.
#[derive(Copy, Clone, Debug, PartialEq, Eq, Structural)]
pub enum ViewerKind {
    Tex,
    Uld,
    Generic,
}

/// `s` with every trailing `pat` taken off.
pub open spec fn trim_end_all(s: Seq<char>, pat: Seq<char>) -> Seq<char>
    decreases s.len(),
{
    if pat.len() > 0 && ends_with(s, pat) {
        trim_end_all(s.subrange(0, s.len() - pat.len()), pat)
    } else {
        s
    }
}

pub open spec fn comp_suffix() -> Seq<char> {
    seq!['.', 'c', 'o', 'm', 'p']
}

/// The extension that decides the viewer: the last dot piece of the path
/// once every `.comp` suffix is taken off.
pub open spec fn viewer_ext(path: Seq<char>) -> Seq<char> {
    last_piece(trim_end_all(path, comp_suffix()), '.')
}

pub open spec fn viewer_kind_of(path: Seq<char>) -> ViewerKind {
    let ext = viewer_ext(path);
    if ext == seq!['t', 'e', 'x'] || ext == seq!['a', 't', 'e', 'x'] {
        ViewerKind::Tex
    } else if ext == seq!['u', 'l', 'd'] {
        ViewerKind::Uld
    } else {
        ViewerKind::Generic
    }
}

/// The viewer that a path opens in: textures, layouts, or raw data.
pub fn viewer_kind(path: &str) -> (r: ViewerKind)
    ensures
        r == viewer_kind_of(path@),
{
    let mut cs = str_chars(path);
    let pat: Vec<char> = vec!['.', 'c', 'o', 'm', 'p'];
    assert(pat@ =~= comp_suffix());
    while chars_ends_with(&cs, &pat)
        invariant
            pat@ == comp_suffix(),
            trim_end_all(cs@, pat@) == trim_end_all(path@, comp_suffix()),
        decreases cs@.len(),
    {
        let n = cs.len() - 5;
        cs.truncate(n);
    }
    let ext = chars_last_piece(&cs, '.');
    let tex: Vec<char> = vec!['t', 'e', 'x'];
    let atex: Vec<char> = vec!['a', 't', 'e', 'x'];
    let uld: Vec<char> = vec!['u', 'l', 'd'];
    assert(tex@ =~= seq!['t', 'e', 'x']);
    assert(atex@ =~= seq!['a', 't', 'e', 'x']);
    assert(uld@ =~= seq!['u', 'l', 'd']);
    if chars_eq(&ext, &tex) || chars_eq(&ext, &atex) {
        ViewerKind::Tex
    } else if chars_eq(&ext, &uld) {
        ViewerKind::Uld
    } else {
        ViewerKind::Generic
    }
}

/// Where a view being opened goes.
#[derive(Copy, Clone, Debug, PartialEq, Eq, Structural)]
pub enum Placement {
    /// Beside the tree, in a new area to its right.
    SplitRight,
    /// In place of the active tab of the last area.
    ReplaceActive,
    /// As a new tab of the last area.
    Append,
}

/// Where a view goes: next to the tree when the tree is the only tab, else
/// into the last area, replacing its active tab or added to it.
pub fn placement(num_tabs: usize, replace: bool) -> (r: Placement)
    ensures
        num_tabs == 1 ==> r == Placement::SplitRight,
        num_tabs != 1 && replace ==> r == Placement::ReplaceActive,
        num_tabs != 1 && !replace ==> r == Placement::Append,
{
    if num_tabs == 1 {
        Placement::SplitRight
    } else if replace {
        Placement::ReplaceActive
    } else {
        Placement::Append
    }
}

/// A pixel of the preview: only alpha as grey when alpha alone is chosen,
/// else the chosen colour channels (others dark) and alpha where chosen
/// (opaque otherwise).
pub open spec fn preview_byte(px: Seq<u8>, k: int, r: bool, g: bool, b: bool, a: bool) -> u8 {
    let isa = !r && !g && !b && a;
    if k == 0 {
        if isa { px[3] } else if r { px[0] } else { 0 }
    } else if k == 1 {
        if isa { px[3] } else if g { px[1] } else { 0 }
    } else if k == 2 {
        if isa { px[3] } else if b { px[2] } else { 0 }
    } else {
        if isa { 255 } else if a { px[3] } else { 255 }
    }
}

/// The preview of RGBA pixel data with the chosen channels; trailing bytes
/// that do not make a whole pixel are left out.
pub open spec fn preview_of(data: Seq<u8>, r: bool, g: bool, b: bool, a: bool) -> Seq<u8> {
    Seq::new(
        (data.len() / 4) * 4,
        |i: int| preview_byte(data.subrange(4 * (i / 4), 4 * (i / 4) + 4), i % 4, r, g, b, a),
    )
}

pub fn channel_preview(data: &[u8], r: bool, g: bool, b: bool, a: bool) -> (out: Vec<u8>)
    ensures
        out@ == preview_of(data@, r, g, b, a),
{
    let isa = !r && !g && !b && a;
    let n = data.len() / 4;
    let mut out: Vec<u8> = Vec::new();
    let mut p: usize = 0;
    while p < n
        invariant
            n == data@.len() / 4,
            data@.len() <= usize::MAX,
            isa == (!r && !g && !b && a),
            p <= n,
            out@.len() == 4 * p,
            forall|i: int| 0 <= i < 4 * p ==> #[trigger] out@[i] == preview_of(data@, r, g, b, a)[i],
        decreases n - p,
    {
        let q = 4 * p;
        let c0 = if isa { data[q + 3] } else if r { data[q] } else { 0 };
        let c1 = if isa { data[q + 3] } else if g { data[q + 1] } else { 0 };
        let c2 = if isa { data[q + 3] } else if b { data[q + 2] } else { 0 };
        let c3 = if isa { 255 } else if a { data[q + 3] } else { 255 };
        out.push(c0);
        out.push(c1);
        out.push(c2);
        out.push(c3);
        proof {
            assert forall|i: int| 4 * p <= i < 4 * p + 4 implies #[trigger] out@[i] == preview_of(data@, r, g, b, a)[i] by {
                assert(i / 4 == p as int);
                let px = data@.subrange(4 * (i / 4), 4 * (i / 4) + 4);
                assert(px[0] == data@[q as int] && px[1] == data@[q + 1] && px[2] == data@[q + 2] && px[3] == data@[q + 3]);
            }
        }
        p = p + 1;
    }
    assert(out@ =~= preview_of(data@, r, g, b, a));
    out
}

/// The extensions a texture view exports: its own, then DDS, PNG, TIFF and
/// TGA.
pub fn tex_exts(name: &str) -> (r: Vec<String>)
    ensures
        r@.len() == 5,
        r@[0]@ == last_piece(name@, '.'),
        r@[1]@ == "dds"@,
        r@[2]@ == "png"@,
        r@[3]@ == "tiff"@,
        r@[4]@ == "tga"@,
{
    let mut r: Vec<String> = Vec::new();
    r.push(last_piece_string(name, '.'));
    r.push("dds".to_owned());
    r.push("png".to_owned());
    r.push("tiff".to_owned());
    r.push("tga".to_owned());
    r
}

proof fn lemma_last_piece_after_dot(s: Seq<char>, ext: Seq<char>)
    requires
        !ext.contains('.'),
    ensures
        last_piece(s + seq!['.'] + ext, '.') == ext,
    decreases ext.len(),
{
    let x = s + seq!['.'] + ext;
    if ext.len() == 0 {
        assert(x.last() == '.');
    } else {
        assert(x.drop_last() =~= s + seq!['.'] + ext.drop_last());
        assert(x.last() == ext.last());
        assert(ext.last() != '.') by {
            if ext.last() == '.' {
                assert(ext.contains(ext[ext.len() - 1]));
            }
        }
        assert forall|c: char| !ext.drop_last().contains(c) || c != '.' by {
            if ext.drop_last().contains(c) && c == '.' {
                let i = choose|i: int| 0 <= i < ext.drop_last().len() && ext.drop_last()[i] == c;
                assert(ext[i] == c);
            }
        }
        lemma_last_piece_after_dot(s, ext.drop_last());
        assert(ext.drop_last().push(ext.last()) =~= ext);
    }
}

proof fn lemma_no_comp_suffix(s: Seq<char>, ext: Seq<char>)
    requires
        !ext.contains('.'),
        ext != seq!['c', 'o', 'm', 'p'],
    ensures
        trim_end_all(s + seq!['.'] + ext, comp_suffix()) == s + seq!['.'] + ext,
{
    let x = s + seq!['.'] + ext;
    let c = comp_suffix();
    if ends_with(x, c) {
        let t = x.subrange(x.len() - 5, x.len() as int);
        assert(t == c);
        if ext.len() >= 5 {
            assert(ext[ext.len() - 5] == x[x.len() - 5]);
            assert(t[0] == '.');
            assert(ext.contains('.'));
        } else if ext.len() == 4 {
            assert forall|i: int| 0 <= i < 4 implies ext[i] == c[i + 1] by {
                assert(x[x.len() - 4 + i] == ext[i]);
                assert(t[1 + i] == x[x.len() - 4 + i]);
            }
            assert(ext =~= seq!['c', 'o', 'm', 'p']);
        } else {
            let k = x.len() - ext.len() - 1;
            assert(x[k] == '.');
            assert(k - (x.len() - 5) >= 1);
            assert(t[k - (x.len() - 5)] == x[k]);
        }
    }
}

proof fn lemma_comp_trimmed(x: Seq<char>)
    ensures
        trim_end_all(x + comp_suffix(), comp_suffix()) == trim_end_all(x, comp_suffix()),
{
    let y = x + comp_suffix();
    assert(y.subrange(y.len() - 5, y.len() as int) =~= comp_suffix());
    assert(y.subrange(0, y.len() - 5) =~= x);
}

/// The viewer follows the last extension of the path, once `.comp` is taken
/// off: `tex` and `atex` open the texture viewer, `uld` the layout viewer,
/// and any other extension the raw viewer.
pub proof fn lemma_viewer_by_extension(base: Seq<char>, ext: Seq<char>)
    ensures
        viewer_kind_of(base + seq!['.'] + seq!['t', 'e', 'x']) == ViewerKind::Tex,
        viewer_kind_of(base + seq!['.'] + seq!['a', 't', 'e', 'x']) == ViewerKind::Tex,
        viewer_kind_of(base + seq!['.'] + seq!['u', 'l', 'd']) == ViewerKind::Uld,
        viewer_kind_of(base + seq!['.'] + seq!['t', 'e', 'x'] + comp_suffix()) == ViewerKind::Tex,
        !ext.contains('.') && ext != seq!['c', 'o', 'm', 'p'] && ext != seq!['t', 'e', 'x'] && ext != seq!['a', 't', 'e', 'x']
            && ext != seq!['u', 'l', 'd'] ==> viewer_kind_of(base + seq!['.'] + ext) == ViewerKind::Generic,
{
    let tex = seq!['t', 'e', 'x'];
    let atex = seq!['a', 't', 'e', 'x'];
    let uld = seq!['u', 'l', 'd'];
    let comp = seq!['c', 'o', 'm', 'p'];
    assert(!tex.contains('.')) by {
        if tex.contains('.') {
            let i = choose|i: int| 0 <= i < tex.len() && tex[i] == '.';
        }
    }
    assert(!atex.contains('.')) by {
        if atex.contains('.') {
            let i = choose|i: int| 0 <= i < atex.len() && atex[i] == '.';
        }
    }
    assert(!uld.contains('.')) by {
        if uld.contains('.') {
            let i = choose|i: int| 0 <= i < uld.len() && uld[i] == '.';
        }
    }
    assert(tex != comp) by {
        assert(tex.len() != comp.len());
    }
    assert(atex != comp) by {
        assert(atex[0] != comp[0]);
    }
    assert(uld != comp) by {
        assert(uld.len() != comp.len());
    }
    assert(uld != tex) by {
        assert(uld[0] != tex[0]);
    }
    assert(uld != atex) by {
        assert(uld.len() != atex.len());
    }
    lemma_no_comp_suffix(base, tex);
    lemma_last_piece_after_dot(base, tex);
    lemma_no_comp_suffix(base, atex);
    lemma_last_piece_after_dot(base, atex);
    lemma_no_comp_suffix(base, uld);
    lemma_last_piece_after_dot(base, uld);
    lemma_comp_trimmed(base + seq!['.'] + tex);
    if !ext.contains('.') && ext != comp {
        lemma_no_comp_suffix(base, ext);
        lemma_last_piece_after_dot(base, ext);
    }
}

} // verus!
