//! Which conversion turns a file of one extension into one of another: a
//! copy where they agree, else through the game's texture format, or none.
use vstd::prelude::*;
use crate::text::{str_chars, chars_eq};

verus! {

/// How data of one format becomes data of another.
#[derive(Copy, Clone, Debug, PartialEq, Eq, Structural)]
pub enum Conversion {
    /// The same format: the bytes are copied as they are.
    Copy,
    TexToDds,
    TexToPng,
    DdsToTex,
    PngToTex,
    Unsupported,
}

pub open spec fn is_tex_ext(e: Seq<char>) -> bool {
    e == seq!['t', 'e', 'x'] || e == seq!['a', 't', 'e', 'x']
}

pub open spec fn conversion_of(source: Seq<char>, target: Seq<char>) -> Conversion {
    if source == target {
        Conversion::Copy
    } else if is_tex_ext(source) {
        if target == seq!['d', 'd', 's'] {
            Conversion::TexToDds
        } else if target == seq!['p', 'n', 'g'] {
            Conversion::TexToPng
        } else {
            Conversion::Unsupported
        }
    } else if is_tex_ext(target) {
        if source == seq!['d', 'd', 's'] {
            Conversion::DdsToTex
        } else if source == seq!['p', 'n', 'g'] {
            Conversion::PngToTex
        } else {
            Conversion::Unsupported
        }
    } else {
        Conversion::Unsupported
    }
}

/// The conversion from files with extension `source_ext` to files with
/// extension `target_ext` (the caller streams the bytes through it; an
/// unsupported pair converts nothing).
pub fn convert(source_ext: &str, target_ext: &str) -> (r: Conversion)
    ensures
        r == conversion_of(source_ext@, target_ext@),
{
    let s = str_chars(source_ext);
    let t = str_chars(target_ext);
    let tex: Vec<char> = vec!['t', 'e', 'x'];
    let atex: Vec<char> = vec!['a', 't', 'e', 'x'];
    let dds: Vec<char> = vec!['d', 'd', 's'];
    let png: Vec<char> = vec!['p', 'n', 'g'];
    assert(tex@ =~= seq!['t', 'e', 'x']);
    assert(atex@ =~= seq!['a', 't', 'e', 'x']);
    assert(dds@ =~= seq!['d', 'd', 's']);
    assert(png@ =~= seq!['p', 'n', 'g']);
    if chars_eq(&s, &t) {
        return Conversion::Copy;
    }
    if chars_eq(&s, &tex) || chars_eq(&s, &atex) {
        if chars_eq(&t, &dds) {
            Conversion::TexToDds
        } else if chars_eq(&t, &png) {
            Conversion::TexToPng
        } else {
            Conversion::Unsupported
        }
    } else if chars_eq(&t, &tex) || chars_eq(&t, &atex) {
        if chars_eq(&s, &dds) {
            Conversion::DdsToTex
        } else if chars_eq(&s, &png) {
            Conversion::PngToTex
        } else {
            Conversion::Unsupported
        }
    } else {
        Conversion::Unsupported
    }
}

/// The conversions between extensions: equal extensions copy; a `tex` or
/// `atex` source converts to `dds` and `png`; a `dds` or `png` source
/// converts to `tex` and to `atex` alike; every other pair is unsupported.
pub proof fn lemma_conversion_table(source: Seq<char>, target: Seq<char>)
    ensures
        source == target ==> conversion_of(source, target) == Conversion::Copy,
        (source == seq!['t', 'e', 'x'] || source == seq!['a', 't', 'e', 'x']) && target == seq!['d', 'd', 's']
            ==> conversion_of(source, target) == Conversion::TexToDds,
        (source == seq!['t', 'e', 'x'] || source == seq!['a', 't', 'e', 'x']) && target == seq!['p', 'n', 'g']
            ==> conversion_of(source, target) == Conversion::TexToPng,
        source == seq!['d', 'd', 's'] && (target == seq!['t', 'e', 'x'] || target == seq!['a', 't', 'e', 'x'])
            ==> conversion_of(source, target) == Conversion::DdsToTex,
        source == seq!['p', 'n', 'g'] && (target == seq!['t', 'e', 'x'] || target == seq!['a', 't', 'e', 'x'])
            ==> conversion_of(source, target) == Conversion::PngToTex,
        source != target
            && !((source == seq!['t', 'e', 'x'] || source == seq!['a', 't', 'e', 'x']) && (target == seq!['d', 'd', 's']
            || target == seq!['p', 'n', 'g']))
            && !((source == seq!['d', 'd', 's'] || source == seq!['p', 'n', 'g']) && (target == seq!['t', 'e', 'x']
            || target == seq!['a', 't', 'e', 'x'])) ==> conversion_of(source, target) == Conversion::Unsupported,
{
    assert(seq!['t', 'e', 'x'] != seq!['d', 'd', 's'] && seq!['t', 'e', 'x'] != seq!['p', 'n', 'g']) by {
        assert(seq!['t', 'e', 'x'][0] != seq!['d', 'd', 's'][0]);
        assert(seq!['t', 'e', 'x'][0] != seq!['p', 'n', 'g'][0]);
    }
    assert(seq!['a', 't', 'e', 'x'] != seq!['d', 'd', 's'] && seq!['a', 't', 'e', 'x'] != seq!['p', 'n', 'g']) by {
        assert(seq!['a', 't', 'e', 'x'].len() != seq!['d', 'd', 's'].len());
        assert(seq!['a', 't', 'e', 'x'].len() != seq!['p', 'n', 'g'].len());
    }
}

} // verus!
