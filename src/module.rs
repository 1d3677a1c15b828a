//! The declarations that each child of a source directory contributes, and the
//! module text synthesised from them.

use vstd::prelude::*;
use vstd::string::*;
use crate::ident::{
    camel_of, constant_ident_of, constant_identifier, is_identifier, is_module_identifier,
    lower_of, to_lower, type_identifier,
};
use crate::kind::{
    classify, extension_of, file_extension, file_stem, has_extension, kind_of, stage_name,
    stage_tag, stem_of, AssetKind, ShaderStage,
};

verus! {

/// One child of a source directory, as the directory listing gives it.
pub struct SourceEntry {
    pub name: String,
    pub is_dir: bool,
}

/// A source directory with its children in listing order.
pub struct SourceDir {
    /// The directory's path as the traversal reached it (source root included).
    pub path: String,
    /// The directory's path relative to the source root; empty for the root.
    pub rel_path: String,
    pub entries: Vec<SourceEntry>,
}

/// A typed accessor file to be produced from a configuration asset.
pub struct ConfigJob {
    /// The configuration file, as the traversal reached it.
    pub source_path: String,
    /// Where the accessor goes, relative to the destination root.
    pub dest_path: String,
}

/// The module synthesised for one source directory.
pub struct GeneratedModule {
    /// The module directory, relative to the destination root.
    pub path: String,
    /// The text of the module's index file.
    pub text: String,
    /// The accessor files that the module's declarations import.
    pub config_jobs: Vec<ConfigJob>,
}

/// Why a directory cannot be turned into a module.
pub enum GenError {
    /// A file has no extension.
    MissingExtension { path: String },
    /// A file's extension belongs to no asset kind.
    UnrecognizedExtension { path: String, extension: String },
    /// A child directory's name, or a configuration file's stem, is not a
    /// valid module identifier.
    InvalidModuleName { path: String },
}

/// A generation failure, over plain values.
pub enum Fault {
    MissingExtension(Seq<char>),
    UnrecognizedExtension(Seq<char>, Seq<char>),
    InvalidModuleName(Seq<char>),
}

impl View for GenError {
    type V = Fault;

    open spec fn view(&self) -> Fault {
        match self {
            GenError::MissingExtension { path } => Fault::MissingExtension(path@),
            GenError::UnrecognizedExtension { path, extension } => Fault::UnrecognizedExtension(
                path@,
                extension@,
            ),
            GenError::InvalidModuleName { path } => Fault::InvalidModuleName(path@),
        }
    }
}

impl View for ConfigJob {
    type V = (Seq<char>, Seq<char>);

    open spec fn view(&self) -> (Seq<char>, Seq<char>) {
        (self.source_path@, self.dest_path@)
    }
}

/// `name` placed under the directory `dir`.
pub open spec fn joined(dir: Seq<char>, name: Seq<char>) -> Seq<char> {
    if dir.len() == 0 {
        name
    } else {
        dir + "/"@ + name
    }
}

pub open spec fn forward_slash(c: char) -> char {
    if c == '\\' {
        '/'
    } else {
        c
    }
}

/// A path with every backslash turned into a forward slash.
pub open spec fn portable(p: Seq<char>) -> Seq<char> {
    p.map_values(|c: char| forward_slash(c))
}

pub open spec fn submodule_decl(name: Seq<char>) -> Seq<char> {
    "pub mod "@ + name + ";\n"@
}

/// Imports the accessor file of a configuration asset and re-exports its type.
pub open spec fn config_decl(stem: Seq<char>) -> Seq<char> {
    "\nmod "@ + stem + ";\npub use "@ + stem + "::Config as "@ + camel_of(stem) + ";"@
}

/// A constant that holds a shader source's path and stage.
pub open spec fn shader_decl(name: Seq<char>, path: Seq<char>, stage: ShaderStage) -> Seq<char> {
    "\n\npub static "@ + constant_ident_of(name)
        + ": crate::assets::shader_asset::ShaderAsset = crate::assets::shader_asset::ShaderAsset {\n    path: \""@
        + portable(path)
        + "\",\n    meta: crate::assets::shader_asset::ShaderAssetMeta {\n        shader_type: \""@
        + stage_tag(stage) + "\",\n    },\n};"@
}

/// The failure that a child brings, if any.
pub open spec fn entry_fault(dir: Seq<char>, e: SourceEntry) -> Option<Fault> {
    let p = joined(dir, e.name@);
    if e.is_dir {
        if is_identifier(e.name@) {
            None
        } else {
            Some(Fault::InvalidModuleName(p))
        }
    } else if !has_extension(e.name@) {
        Some(Fault::MissingExtension(p))
    } else if kind_of(extension_of(e.name@)) == AssetKind::Unrecognized {
        Some(Fault::UnrecognizedExtension(p, lower_of(extension_of(e.name@))))
    } else if kind_of(extension_of(e.name@)) == AssetKind::ConfigAsset && !is_identifier(
        stem_of(e.name@),
    ) {
        Some(Fault::InvalidModuleName(p))
    } else {
        None
    }
}

/// The declaration that a child file contributes (empty for directories and
/// for ignored metadata).
pub open spec fn entry_decl(dir: Seq<char>, e: SourceEntry) -> Seq<char> {
    if e.is_dir || !has_extension(e.name@) {
        Seq::empty()
    } else {
        match kind_of(extension_of(e.name@)) {
            AssetKind::ConfigAsset => config_decl(stem_of(e.name@)),
            AssetKind::ShaderSourceAsset(stage) => shader_decl(e.name@, joined(dir, e.name@), stage),
            _ => Seq::empty(),
        }
    }
}

/// The accessor file that a child asks for, if it is a configuration asset.
pub open spec fn entry_job(dir: Seq<char>, rel: Seq<char>, e: SourceEntry) -> Seq<(Seq<char>, Seq<char>)> {
    if !e.is_dir && has_extension(e.name@) && kind_of(extension_of(e.name@)) == AssetKind::ConfigAsset {
        seq![(joined(dir, e.name@), joined(rel, stem_of(e.name@) + ".rs"@))]
    } else {
        Seq::empty()
    }
}

/// The failure of the first child, in listing order, that brings one.
pub open spec fn first_fault(dir: Seq<char>, es: Seq<SourceEntry>) -> Option<Fault>
    decreases es.len(),
{
    if es.len() == 0 {
        None
    } else {
        match first_fault(dir, es.drop_last()) {
            Some(f) => Some(f),
            None => entry_fault(dir, es.last()),
        }
    }
}

/// The submodule declarations of the child directories, in listing order.
pub open spec fn submodules_text(es: Seq<SourceEntry>) -> Seq<char>
    decreases es.len(),
{
    if es.len() == 0 {
        Seq::empty()
    } else {
        submodules_text(es.drop_last()) + if es.last().is_dir {
            submodule_decl(es.last().name@)
        } else {
            Seq::empty()
        }
    }
}

/// The declarations of the child files, in listing order.
pub open spec fn declarations_text(dir: Seq<char>, es: Seq<SourceEntry>) -> Seq<char>
    decreases es.len(),
{
    if es.len() == 0 {
        Seq::empty()
    } else {
        declarations_text(dir, es.drop_last()) + entry_decl(dir, es.last())
    }
}

/// The accessor files that the children ask for, in listing order.
pub open spec fn config_jobs_of(dir: Seq<char>, rel: Seq<char>, es: Seq<SourceEntry>) -> Seq<(Seq<char>, Seq<char>)>
    decreases es.len(),
{
    if es.len() == 0 {
        Seq::empty()
    } else {
        config_jobs_of(dir, rel, es.drop_last()) + entry_job(dir, rel, es.last())
    }
}

/// A module's text: the submodule declarations, then the file declarations.
pub open spec fn module_text(dir: Seq<char>, es: Seq<SourceEntry>) -> Seq<char> {
    submodules_text(es) + declarations_text(dir, es)
}

/// A failure among the first children is the failure of the whole listing.
pub proof fn lemma_first_fault_prefix(dir: Seq<char>, es: Seq<SourceEntry>, k: int)
    requires
        0 <= k <= es.len(),
        first_fault(dir, es.subrange(0, k)) is Some,
    ensures
        first_fault(dir, es) == first_fault(dir, es.subrange(0, k)),
    decreases es.len() - k,
{
    if k < es.len() {
        assert(es.subrange(0, k + 1).drop_last() =~= es.subrange(0, k));
        lemma_first_fault_prefix(dir, es, k + 1);
    } else {
        assert(es.subrange(0, k) =~= es);
    }
}

proof fn lemma_listing_concat(dir: Seq<char>, rel: Seq<char>, a: Seq<SourceEntry>, b: Seq<SourceEntry>)
    ensures
        submodules_text(a + b) == submodules_text(a) + submodules_text(b),
        declarations_text(dir, a + b) == declarations_text(dir, a) + declarations_text(dir, b),
        config_jobs_of(dir, rel, a + b) == config_jobs_of(dir, rel, a) + config_jobs_of(dir, rel, b),
        first_fault(dir, a + b) == match first_fault(dir, a) {
            Some(f) => Some(f),
            None => first_fault(dir, b),
        },
    decreases b.len(),
{
    if b.len() == 0 {
        assert(a + b =~= a);
        assert(submodules_text(a) + submodules_text(b) =~= submodules_text(a));
        assert(declarations_text(dir, a) + declarations_text(dir, b) =~= declarations_text(dir, a));
        assert(config_jobs_of(dir, rel, a) + config_jobs_of(dir, rel, b) =~= config_jobs_of(dir, rel, a));
    } else {
        lemma_listing_concat(dir, rel, a, b.drop_last());
        assert((a + b).drop_last() =~= a + b.drop_last());
        assert((a + b).last() == b.last());
        let x = submodules_text(a);
        let y = submodules_text(b.drop_last());
        let z = if b.last().is_dir {
            submodule_decl(b.last().name@)
        } else {
            Seq::empty()
        };
        assert(x + y + z =~= x + (y + z));
        let x = declarations_text(dir, a);
        let y = declarations_text(dir, b.drop_last());
        let z = entry_decl(dir, b.last());
        assert(x + y + z =~= x + (y + z));
        let x = config_jobs_of(dir, rel, a);
        let y = config_jobs_of(dir, rel, b.drop_last());
        let z = entry_job(dir, rel, b.last());
        assert(x + y + z =~= x + (y + z));
    }
}

/// A metadata file contributes nothing to its directory's module: adding one
/// anywhere in a listing leaves the module text, the accessor files asked for
/// and the outcome as they were.
pub proof fn ignored_meta_contributes_nothing(
    dir: Seq<char>,
    rel: Seq<char>,
    es: Seq<SourceEntry>,
    k: int,
    e: SourceEntry,
)
    requires
        0 <= k <= es.len(),
        !e.is_dir,
        has_extension(e.name@),
        kind_of(extension_of(e.name@)) == AssetKind::IgnoredMeta,
    ensures
        module_text(dir, es.insert(k, e)) == module_text(dir, es),
        config_jobs_of(dir, rel, es.insert(k, e)) == config_jobs_of(dir, rel, es),
        first_fault(dir, es.insert(k, e)) == first_fault(dir, es),
{
    let a = es.subrange(0, k);
    let b = es.subrange(k, es.len() as int);
    let one = seq![e];
    assert(es.insert(k, e) =~= a + one + b);
    assert(es =~= a + b);
    assert(one.drop_last() =~= Seq::<SourceEntry>::empty());
    assert(one.last() == e);
    assert(submodules_text(one.drop_last()) == Seq::<char>::empty());
    assert(declarations_text(dir, one.drop_last()) == Seq::<char>::empty());
    assert(entry_decl(dir, e) == Seq::<char>::empty());
    assert(config_jobs_of(dir, rel, one.drop_last()) == Seq::<(Seq<char>, Seq<char>)>::empty());
    assert(entry_job(dir, rel, e) == Seq::<(Seq<char>, Seq<char>)>::empty());
    assert(first_fault(dir, one.drop_last()) is None);
    assert(entry_fault(dir, e) is None);
    assert(submodules_text(one) =~= Seq::<char>::empty());
    assert(declarations_text(dir, one) =~= Seq::<char>::empty());
    assert(config_jobs_of(dir, rel, one) =~= Seq::<(Seq<char>, Seq<char>)>::empty());
    assert(first_fault(dir, one) is None);
    lemma_listing_concat(dir, rel, a, one);
    lemma_listing_concat(dir, rel, a + one, b);
    lemma_listing_concat(dir, rel, a, b);
    assert(submodules_text(a + one) =~= submodules_text(a));
    assert(declarations_text(dir, a + one) =~= declarations_text(dir, a));
    assert(config_jobs_of(dir, rel, a + one) =~= config_jobs_of(dir, rel, a));
}

/// A file whose extension reads `frag` in any letter case is declared as a
/// shader tagged `"fragment"`; one whose extension reads `vert`, as a shader
/// tagged `"vertex"`.
pub proof fn shader_extensions_tag_stage(dir: Seq<char>, e: SourceEntry)
    requires
        !e.is_dir,
        has_extension(e.name@),
    ensures
        lower_of(extension_of(e.name@)) == "frag"@ ==> entry_decl(dir, e) == shader_decl(
            e.name@,
            joined(dir, e.name@),
            ShaderStage::Fragment,
        ) && stage_tag(ShaderStage::Fragment) == "fragment"@,
        lower_of(extension_of(e.name@)) == "vert"@ ==> entry_decl(dir, e) == shader_decl(
            e.name@,
            joined(dir, e.name@),
            ShaderStage::Vertex,
        ) && stage_tag(ShaderStage::Vertex) == "vertex"@,
{
    reveal_strlit("frag");
    reveal_strlit("vert");
    reveal_strlit("meta");
    reveal_strlit("toml");
    assert("frag"@[0] == 'f' && "vert"@[0] == 'v' && "meta"@[0] == 'm' && "toml"@[0] == 't');
    assert("frag"@ != "meta"@ && "frag"@ != "toml"@ && "frag"@ != "vert"@);
    assert("vert"@ != "meta"@ && "vert"@ != "toml"@);
}

/// `name` placed under the directory `dir`.
pub fn join_path(dir: &str, name: &str) -> (r: String)
    ensures
        r@ == joined(dir@, name@),
{
    let mut r = String::from_str(dir);
    if dir.unicode_len() == 0 {
        String::from_str(name)
    } else {
        r.append("/");
        r.append(name);
        r
    }
}

/// The path with every backslash turned into a forward slash.
pub fn portable_path(p: &str) -> (r: String)
    ensures
        r@ == portable(p@),
{
    let n = p.unicode_len();
    let mut r = String::new();
    let mut i: usize = 0;
    while i < n
        invariant
            n == p@.len(),
            i <= n,
            r@ == portable(p@.subrange(0, i as int)),
        decreases n - i,
    {
        let c = p.get_char(i);
        if c == '\\' {
            r.append("/");
        } else {
            r.append(p.substring_char(i, i + 1));
        }
        proof {
            reveal_strlit("/");
        }
        assert(r@ =~= portable(p@.subrange(0, i + 1)));
        i = i + 1;
    }
    assert(p@.subrange(0, n as int) =~= p@);
    r
}

/// The declaration of a child module.
pub fn submodule_declaration(name: &str) -> (r: String)
    ensures
        r@ == submodule_decl(name@),
{
    let mut r = String::from_str("pub mod ");
    r.append(name);
    r.append(";\n");
    r
}

/// The declaration that imports a configuration asset's accessor file and
/// re-exports its type under the pascal-case form of the file stem.
pub fn config_declaration(stem: &str) -> (r: String)
    ensures
        r@ == config_decl(stem@),
{
    let ty = type_identifier(stem);
    let mut r = String::from_str("\nmod ");
    r.append(stem);
    r.append(";\npub use ");
    r.append(stem);
    r.append("::Config as ");
    r.append(ty.as_str());
    r.append(";");
    r
}

/// The constant declaration of a shader source file.
pub fn shader_declaration(name: &str, path: &str, stage: ShaderStage) -> (r: String)
    ensures
        r@ == shader_decl(name@, path@, stage),
{
    let ident = constant_identifier(name);
    let portable = portable_path(path);
    let mut r = String::from_str("\n\npub static ");
    r.append(ident.as_str());
    r.append(
        ": crate::assets::shader_asset::ShaderAsset = crate::assets::shader_asset::ShaderAsset {\n    path: \"",
    );
    r.append(portable.as_str());
    r.append("\",\n    meta: crate::assets::shader_asset::ShaderAssetMeta {\n        shader_type: \"");
    r.append(stage_name(stage));
    r.append("\",\n    },\n};");
    r
}

/// Checks one child: a directory must be named as a module identifier, a
/// file must have an extension of a known kind, and a configuration file's
/// stem must be a module identifier.
pub fn check_entry(dir: &str, e: &SourceEntry) -> (r: Result<(), GenError>)
    ensures
        r is Err <==> entry_fault(dir@, *e) is Some,
        r matches Err(x) ==> entry_fault(dir@, *e) == Some(x@),
{
    let name = e.name.as_str();
    if e.is_dir {
        if is_module_identifier(name) {
            Ok(())
        } else {
            Err(GenError::InvalidModuleName { path: join_path(dir, name) })
        }
    } else {
        match file_extension(name) {
            None => Err(GenError::MissingExtension { path: join_path(dir, name) }),
            Some(ext) => {
                let kind = classify(ext);
                if kind == AssetKind::Unrecognized {
                    Err(
                        GenError::UnrecognizedExtension {
                            path: join_path(dir, name),
                            extension: to_lower(ext),
                        },
                    )
                } else if kind == AssetKind::ConfigAsset && !is_module_identifier(file_stem(name)) {
                    Err(GenError::InvalidModuleName { path: join_path(dir, name) })
                } else {
                    Ok(())
                }
            },
        }
    }
}

/// The declaration that one child contributes to its directory's module.
pub fn entry_declaration(dir: &str, e: &SourceEntry) -> (r: String)
    ensures
        r@ == entry_decl(dir@, *e),
{
    let name = e.name.as_str();
    if e.is_dir {
        return String::new();
    }
    match file_extension(name) {
        None => String::new(),
        Some(ext) => match classify(ext) {
            AssetKind::ConfigAsset => config_declaration(file_stem(name)),
            AssetKind::ShaderSourceAsset(stage) => {
                let path = join_path(dir, name);
                shader_declaration(name, path.as_str(), stage)
            },
            _ => String::new(),
        },
    }
}

/// The accessor file that one child asks for, if it is a configuration asset.
pub fn entry_config_job(dir: &str, rel: &str, e: &SourceEntry) -> (r: Option<ConfigJob>)
    ensures
        r is None ==> entry_job(dir@, rel@, *e) == Seq::<(Seq<char>, Seq<char>)>::empty(),
        r matches Some(j) ==> entry_job(dir@, rel@, *e) == seq![j@],
{
    let name = e.name.as_str();
    if e.is_dir {
        return None;
    }
    match file_extension(name) {
        None => None,
        Some(ext) => match classify(ext) {
            AssetKind::ConfigAsset => {
                let mut file = String::from_str(file_stem(name));
                file.append(".rs");
                Some(
                    ConfigJob {
                        source_path: join_path(dir, name),
                        dest_path: join_path(rel, file.as_str()),
                    },
                )
            },
            _ => None,
        },
    }
}

/// Synthesises the module of one source directory: a submodule declaration
/// for every child directory, then the declarations of the child files, each
/// group in listing order. Fails on the first child, in listing order, that
/// cannot be declared.
pub fn synthesize_module(dir: &SourceDir) -> (r: Result<GeneratedModule, GenError>)
    ensures
        r is Err <==> first_fault(dir.path@, dir.entries@) is Some,
        r matches Err(x) ==> first_fault(dir.path@, dir.entries@) == Some(x@),
        r matches Ok(m) ==> {
            &&& m.path@ == dir.rel_path@
            &&& m.text@ == module_text(dir.path@, dir.entries@)
            &&& m.config_jobs@.map_values(|j: ConfigJob| j@) == config_jobs_of(
                dir.path@,
                dir.rel_path@,
                dir.entries@,
            )
        },
{
    let d = dir.path.as_str();
    let rel = dir.rel_path.as_str();
    let ghost es = dir.entries@;
    let n = dir.entries.len();
    let mut subs = String::new();
    let mut decls = String::new();
    let mut jobs: Vec<ConfigJob> = Vec::new();
    let mut i: usize = 0;
    assert(es.subrange(0, 0) =~= Seq::<SourceEntry>::empty());
    while i < n
        invariant
            n == es.len(),
            es == dir.entries@,
            d@ == dir.path@,
            rel@ == dir.rel_path@,
            i <= n,
            first_fault(d@, es.subrange(0, i as int)) is None,
            subs@ == submodules_text(es.subrange(0, i as int)),
            decls@ == declarations_text(d@, es.subrange(0, i as int)),
            jobs@.map_values(|j: ConfigJob| j@) == config_jobs_of(d@, rel@, es.subrange(0, i as int)),
        decreases n - i,
    {
        let e = &dir.entries[i];
        let ghost prefix = es.subrange(0, i + 1);
        assert(prefix.drop_last() =~= es.subrange(0, i as int));
        assert(prefix.last() == *e);
        match check_entry(d, e) {
            Err(x) => {
                proof {
                    lemma_first_fault_prefix(d@, es, i + 1);
                }
                return Err(x);
            },
            Ok(()) => {},
        }
        if e.is_dir {
            let sub = submodule_declaration(e.name.as_str());
            subs.append(sub.as_str());
        } else {
            assert(subs@ =~= subs@ + Seq::<char>::empty());
        }
        let decl = entry_declaration(d, e);
        decls.append(decl.as_str());
        let ghost old_jobs = jobs@;
        match entry_config_job(d, rel, e) {
            Some(j) => {
                jobs.push(j);
                assert(jobs@.map_values(|j: ConfigJob| j@) =~= old_jobs.map_values(
                    |j: ConfigJob| j@,
                ) + entry_job(d@, rel@, *e));
            },
            None => {
                assert(jobs@.map_values(|j: ConfigJob| j@) =~= old_jobs.map_values(
                    |j: ConfigJob| j@,
                ) + entry_job(d@, rel@, *e));
            },
        }
        i = i + 1;
    }
    assert(es.subrange(0, n as int) =~= es);
    let mut text = subs;
    text.append(decls.as_str());
    Ok(GeneratedModule { path: String::from_str(rel), text, config_jobs: jobs })
}

} // verus!
