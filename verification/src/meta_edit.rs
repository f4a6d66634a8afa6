//! Editing a mod's description in the explorer: its lists of tags and
//! dependencies, the default choices of its options, and the error popup.
use vstd::prelude::*;
use crate::text::{str_chars, string_from_chars, decimal, decimal_chars};

verus! {

/// What a mod says of itself.
pub struct Meta {
    pub name: String,
    pub description: String,
    pub version: String,
    pub author: String,
    pub website: String,
    pub tags: Vec<String>,
    pub dependencies: Vec<String>,
}

/// The view that edits a mod's description.
pub struct ModMeta {
    pub name: String,
    pub path: String,
    pub meta: Meta,
}

impl ModMeta {
    pub fn new(name: String, path: String, meta: Meta) -> (r: ModMeta)
        ensures
            r.name == name,
            r.path == path,
            r.meta == meta,
    {
        ModMeta { name, path, meta }
    }
}

/// Removes the entry whose delete button was pressed, if one was.
pub fn delete_chosen<T>(list: &mut Vec<T>, delete: Option<usize>)
    requires
        delete matches Some(i) ==> i < old(list)@.len(),
    ensures
        final(list)@ == match delete {
            Some(i) => old(list)@.remove(i as int),
            None => old(list)@,
        },
{
    if let Some(i) = delete {
        list.remove(i);
    }
}

/// Adds an empty entry at the end.
pub fn add_blank(list: &mut Vec<String>)
    ensures
        final(list)@.len() == old(list)@.len() + 1,
        final(list)@.drop_last() == old(list)@,
        final(list)@.last()@.len() == 0,
{
    list.push(String::new());
    assert(list@.drop_last() =~= old(list)@);
}

/// Bit `j` of `bits`: whether sub option `j` is on by default.
pub open spec fn bit_of(bits: u32, j: u32) -> bool {
    (bits >> j) & 1u32 == 1u32
}

/// Whether sub option `i` is on in the defaults `bits`.
pub fn is_default(bits: u32, i: u32) -> (r: bool)
    requires
        i < 32,
    ensures
        r == bit_of(bits, i),
{
    let r = bits & (1u32 << i) != 0;
    assert(r == ((bits >> i) & 1u32 == 1u32)) by (bit_vector)
        requires
            i < 32,
            r == (bits & (1u32 << i) != 0),
    ;
    r
}

/// The defaults with sub option `i` switched.
pub fn toggle_default(bits: u32, i: u32) -> (r: u32)
    requires
        i < 32,
    ensures
        forall|j: u32| j < 32 ==> #[trigger] bit_of(r, j) == if j == i {
            !bit_of(bits, j)
        } else {
            bit_of(bits, j)
        },
{
    let r = bits ^ (1u32 << i);
    assert(forall|j: u32|
        j < 32 ==> (((r >> j) & 1u32 == 1u32) == if j == i {
            !((bits >> j) & 1u32 == 1u32)
        } else {
            (bits >> j) & 1u32 == 1u32
        })) by (bit_vector)
        requires
            i < 32,
            r == bits ^ (1u32 << i),
    ;
    r
}

/// `(i) name` for the default sub option `default`, or `Invalid` when there
/// is none at that position.
pub open spec fn default_label_of(default: u32, names: Seq<Seq<char>>) -> Seq<char> {
    if (default as int) < names.len() {
        seq!['('] + decimal(default as nat) + seq![')', ' '] + names[default as int]
    } else {
        "Invalid"@
    }
}

pub open spec fn names_view(v: Seq<String>) -> Seq<Seq<char>> {
    v.map_values(|s: String| s@)
}

/// The label of the default of a single-choice option.
pub fn default_label(default: u32, names: &Vec<String>) -> (r: String)
    ensures
        r@ == default_label_of(default, names_view(names@)),
{
    if (default as usize) < names.len() {
        let mut cs: Vec<char> = Vec::new();
        cs.push('(');
        let ds = decimal_chars(default as u64);
        let mut i: usize = 0;
        while i < ds.len()
            invariant
                i <= ds@.len(),
                cs@ == seq!['('] + ds@.take(i as int),
            decreases ds@.len() - i,
        {
            cs.push(ds[i]);
            proof {
                assert(ds@.take(i + 1) =~= ds@.take(i as int).push(ds@[i as int]));
            }
            i = i + 1;
        }
        cs.push(')');
        cs.push(' ');
        let ns = str_chars(names[default as usize].as_str());
        let ghost pre = cs@;
        let mut k: usize = 0;
        while k < ns.len()
            invariant
                k <= ns@.len(),
                cs@ == pre + ns@.take(k as int),
            decreases ns@.len() - k,
        {
            cs.push(ns[k]);
            proof {
                assert(ns@.take(k + 1) =~= ns@.take(k as int).push(ns@[k as int]));
            }
            k = k + 1;
        }
        proof {
            assert(ds@.take(ds@.len() as int) =~= ds@);
            assert(ns@.take(ns@.len() as int) =~= ns@);
            assert(names_view(names@)[default as int] == names@[default as int]@);
            assert(cs@ =~= default_label_of(default, names_view(names@)));
        }
        string_from_chars(cs.as_slice())
    } else {
        "Invalid".to_string()
    }
}

/// The kind of value an option of a mod sets.
#[derive(Copy, Clone, Debug, PartialEq, Eq, Structural)]
pub enum OptionKind {
    SingleFiles,
    MultiFiles,
    Rgb,
    Rgba,
    Grayscale,
    Opacity,
    Mask,
}

/// A sub option of a file option, as the editor shows it.
pub struct SubOption {
    pub name: String,
    pub description: String,
}

/// An option of a mod, as the editor shows it; `sub_options` are those of
/// a file option (empty for the other kinds).
pub struct MetaOption {
    pub name: String,
    pub description: String,
    pub kind: OptionKind,
    pub sub_options: Vec<SubOption>,
}

/// Adds a new option at the end: a single-choice file option named
/// "New option", with no description and no sub options.
pub fn add_option(options: &mut Vec<MetaOption>)
    ensures
        final(options)@.len() == old(options)@.len() + 1,
        final(options)@.drop_last() == old(options)@,
        final(options)@.last().name@ == "New option"@,
        final(options)@.last().description@.len() == 0,
        final(options)@.last().kind == OptionKind::SingleFiles,
        final(options)@.last().sub_options@.len() == 0,
{
    options.push(MetaOption {
        name: "New option".to_string(),
        description: String::new(),
        kind: OptionKind::SingleFiles,
        sub_options: Vec::new(),
    });
    assert(options@.drop_last() =~= old(options)@);
}

/// Adds a blank sub option at the end.
pub fn add_sub_option(subs: &mut Vec<SubOption>)
    ensures
        final(subs)@.len() == old(subs)@.len() + 1,
        final(subs)@.drop_last() == old(subs)@,
        final(subs)@.last().name@.len() == 0,
        final(subs)@.last().description@.len() == 0,
{
    subs.push(SubOption { name: String::new(), description: String::new() });
    assert(subs@.drop_last() =~= old(subs)@);
}

/// The error shown in a popup until it is closed: title and message.
pub struct ErrorPopup {
    pub current: Option<(String, String)>,
}

impl ErrorPopup {
    pub fn new() -> (r: ErrorPopup)
        ensures
            r.current is None,
    {
        ErrorPopup { current: None }
    }

    /// Shows an error, in place of any shown before.
    pub fn show_error(&mut self, title: String, error: String)
        ensures
            final(self).current == Some((title, error)),
    {
        self.current = Some((title, error));
    }

    /// The popup's close button.
    pub fn close(&mut self)
        ensures
            final(self).current is None,
    {
        self.current = None;
    }
}

} // verus!
