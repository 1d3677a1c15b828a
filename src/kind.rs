//! File names split into stem and extension, and the closed classification of
//! asset files by extension.

use vstd::prelude::*;
use vstd::string::*;
use crate::ident::{lower_of, to_lower};

verus! {

/// The stage a shader source file is compiled for.
#[derive(Clone, Copy, Debug, PartialEq, Eq, Structural)]
pub enum ShaderStage {
    Vertex,
    Fragment,
}

/// The kind of an asset file, decided by its lower-cased extension.
#[derive(Clone, Copy, Debug, PartialEq, Eq, Structural)]
pub enum AssetKind {
    /// A structured configuration file, turned into a typed accessor.
    ConfigAsset,
    /// A shader source file.
    ShaderSourceAsset(ShaderStage),
    /// Metadata next to an asset; it produces nothing.
    IgnoredMeta,
    /// Anything else: generation fails on it.
    Unrecognized,
}

/// The position of the last `c` of `s`, or -1 where there is none.
pub open spec fn last_index(s: Seq<char>, c: char) -> int
    decreases s.len(),
{
    if s.len() == 0 {
        -1
    } else if s.last() == c {
        s.len() - 1
    } else {
        last_index(s.drop_last(), c)
    }
}

/// The position of the last `.` of `s`, or -1 where there is none.
pub open spec fn last_dot(s: Seq<char>) -> int {
    last_index(s, '.')
}

/// A file name has an extension where it holds a `.` after its first
/// character; the extension follows the last `.`.
pub open spec fn has_extension(name: Seq<char>) -> bool {
    last_dot(name) >= 1
}

pub open spec fn extension_of(name: Seq<char>) -> Seq<char> {
    name.subrange(last_dot(name) + 1, name.len() as int)
}

/// The name without its extension and the `.` before it.
pub open spec fn stem_of(name: Seq<char>) -> Seq<char> {
    if has_extension(name) {
        name.subrange(0, last_dot(name))
    } else {
        name
    }
}

/// The kind that an already lower-cased extension stands for.
pub open spec fn kind_of_lowered(ext: Seq<char>) -> AssetKind {
    if ext == "meta"@ {
        AssetKind::IgnoredMeta
    } else if ext == "toml"@ {
        AssetKind::ConfigAsset
    } else if ext == "vert"@ {
        AssetKind::ShaderSourceAsset(ShaderStage::Vertex)
    } else if ext == "frag"@ {
        AssetKind::ShaderSourceAsset(ShaderStage::Fragment)
    } else {
        AssetKind::Unrecognized
    }
}

/// The kind of a file with extension `ext`, in any letter case.
pub open spec fn kind_of(ext: Seq<char>) -> AssetKind {
    kind_of_lowered(lower_of(ext))
}

/// The stage tag written into a shader declaration.
pub open spec fn stage_tag(stage: ShaderStage) -> Seq<char> {
    match stage {
        ShaderStage::Vertex => "vertex"@,
        ShaderStage::Fragment => "fragment"@,
    }
}

pub proof fn lemma_last_index_bounds(s: Seq<char>, c: char)
    ensures
        -1 <= last_index(s, c) < s.len(),
        last_index(s, c) >= 0 ==> s[last_index(s, c)] == c,
        forall|j: int| last_index(s, c) < j < s.len() ==> s[j] != c,
    decreases s.len(),
{
    if s.len() > 0 && s.last() != c {
        lemma_last_index_bounds(s.drop_last(), c);
        assert forall|j: int| last_index(s, c) < j < s.len() implies s[j] != c by {
            if j < s.len() - 1 {
                assert(s[j] == s.drop_last()[j]);
            }
        }
    }
}

/// The position of the last `c` of `name`, if any.
pub fn find_last(name: &str, c: char) -> (r: Option<usize>)
    ensures
        r is None <==> last_index(name@, c) == -1,
        r matches Some(k) ==> k == last_index(name@, c),
{
    let n = name.unicode_len();
    let mut i: usize = n;
    assert(name@.subrange(0, n as int) =~= name@);
    while i > 0
        invariant
            n == name@.len(),
            i <= n,
            last_index(name@, c) == last_index(name@.subrange(0, i as int), c),
        decreases i,
    {
        let prefix = Ghost(name@.subrange(0, i as int));
        assert(prefix@.drop_last() =~= name@.subrange(0, i - 1));
        if name.get_char(i - 1) == c {
            return Some(i - 1);
        }
        i = i - 1;
    }
    assert(name@.subrange(0, 0) =~= Seq::<char>::empty());
    None
}

/// The extension of a file name, where it has one.
pub fn file_extension(name: &str) -> (r: Option<&str>)
    ensures
        r is Some <==> has_extension(name@),
        r matches Some(e) ==> e@ == extension_of(name@),
{
    proof {
        lemma_last_index_bounds(name@, '.');
    }
    let n = name.unicode_len();
    match find_last(name, '.') {
        Some(k) => {
            if k == 0 {
                None
            } else {
                Some(name.substring_char(k + 1, n))
            }
        },
        None => None,
    }
}

/// The stem of a file name: the name without its extension.
pub fn file_stem(name: &str) -> (r: &str)
    ensures
        r@ == stem_of(name@),
{
    proof {
        lemma_last_index_bounds(name@, '.');
    }
    match find_last(name, '.') {
        Some(k) => {
            if k == 0 {
                name
            } else {
                name.substring_char(0, k)
            }
        },
        None => name,
    }
}

/// The kind of an already lower-cased extension.
pub fn classify_lowered(ext: &str) -> (r: AssetKind)
    ensures
        r == kind_of_lowered(ext@),
{
    let e = String::from_str(ext);
    if e == String::from_str("meta") {
        AssetKind::IgnoredMeta
    } else if e == String::from_str("toml") {
        AssetKind::ConfigAsset
    } else if e == String::from_str("vert") {
        AssetKind::ShaderSourceAsset(ShaderStage::Vertex)
    } else if e == String::from_str("frag") {
        AssetKind::ShaderSourceAsset(ShaderStage::Fragment)
    } else {
        AssetKind::Unrecognized
    }
}

/// The kind of a file with extension `ext`, matched without regard to case.
pub fn classify(ext: &str) -> (r: AssetKind)
    ensures
        r == kind_of(ext@),
{
    let lowered = to_lower(ext);
    classify_lowered(lowered.as_str())
}

/// The tag that names a shader stage in a declaration.
pub fn stage_name(stage: ShaderStage) -> (r: &'static str)
    ensures
        r@ == stage_tag(stage),
{
    match stage {
        ShaderStage::Vertex => "vertex",
        ShaderStage::Fragment => "fragment",
    }
}

} // verus!
