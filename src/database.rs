//! The plan of a whole destination tree: one module per source directory,
//! made only when every directory can be declared.

use vstd::prelude::*;
use crate::kind::{extension_of, has_extension, kind_of, AssetKind};
use crate::module::{
    config_jobs_of, declarations_text, entry_decl, entry_fault, entry_job, first_fault, joined,
    module_text, submodules_text, synthesize_module, ConfigJob, Fault, GenError, GeneratedModule,
    SourceDir, SourceEntry,
};

verus! {

/// The failure of the first directory, in traversal order, that brings one.
pub open spec fn plan_fault(ds: Seq<SourceDir>) -> Option<Fault>
    decreases ds.len(),
{
    if ds.len() == 0 {
        None
    } else {
        match plan_fault(ds.drop_last()) {
            Some(f) => Some(f),
            None => first_fault(ds.last().path@, ds.last().entries@),
        }
    }
}

/// `m` is the module that the directory `d` gives.
pub open spec fn module_of(d: SourceDir, m: GeneratedModule) -> bool {
    &&& m.path@ == d.rel_path@
    &&& m.text@ == module_text(d.path@, d.entries@)
    &&& m.config_jobs@.map_values(|j: ConfigJob| j@) == config_jobs_of(
        d.path@,
        d.rel_path@,
        d.entries@,
    )
}

/// `ms` holds, in order, the modules of the directories `ds`.
pub open spec fn planned(ds: Seq<SourceDir>, ms: Seq<GeneratedModule>) -> bool {
    &&& ms.len() == ds.len()
    &&& forall|i: int| 0 <= i < ds.len() ==> module_of(ds[i], #[trigger] ms[i])
}

/// The index file of a module directory, relative to the destination root.
pub open spec fn index_path(rel: Seq<char>) -> Seq<char> {
    joined(rel, "mod.rs"@)
}

/// The index files that a run writes for the directories `ds`, as pairs of
/// path and content.
pub open spec fn index_files(ds: Seq<SourceDir>) -> Seq<(Seq<char>, Seq<char>)> {
    ds.map_values(|d: SourceDir| (index_path(d.rel_path@), module_text(d.path@, d.entries@)))
}

/// The accessor files that a run asks for, directory by directory.
pub open spec fn accessor_jobs(ds: Seq<SourceDir>) -> Seq<Seq<(Seq<char>, Seq<char>)>> {
    ds.map_values(|d: SourceDir| config_jobs_of(d.path@, d.rel_path@, d.entries@))
}

/// Two listings that name the same children in the same order.
pub open spec fn same_entries(a: Seq<SourceEntry>, b: Seq<SourceEntry>) -> bool {
    &&& a.len() == b.len()
    &&& forall|i: int|
        0 <= i < a.len() ==> (#[trigger] a[i]).name@ == b[i].name@ && a[i].is_dir == b[i].is_dir
}

/// Two traversals that reached the same tree.
pub open spec fn same_tree(a: Seq<SourceDir>, b: Seq<SourceDir>) -> bool {
    &&& a.len() == b.len()
    &&& forall|i: int|
        0 <= i < a.len() ==> {
            &&& (#[trigger] a[i]).path@ == b[i].path@
            &&& a[i].rel_path@ == b[i].rel_path@
            &&& same_entries(a[i].entries@, b[i].entries@)
        }
}

/// Plans the destination tree: the module of every source directory, in
/// traversal order. Fails, and plans nothing, on the first directory that
/// cannot be declared.
pub fn plan_database(dirs: &Vec<SourceDir>) -> (r: Result<Vec<GeneratedModule>, GenError>)
    ensures
        r is Err <==> plan_fault(dirs@) is Some,
        r matches Err(x) ==> plan_fault(dirs@) == Some(x@),
        r matches Ok(ms) ==> planned(dirs@, ms@),
{
    let n = dirs.len();
    let mut ms: Vec<GeneratedModule> = Vec::new();
    let mut i: usize = 0;
    assert(dirs@.subrange(0, 0) =~= Seq::<SourceDir>::empty());
    while i < n
        invariant
            n == dirs@.len(),
            i <= n,
            plan_fault(dirs@.subrange(0, i as int)) is None,
            planned(dirs@.subrange(0, i as int), ms@),
        decreases n - i,
    {
        let ghost prefix = dirs@.subrange(0, i + 1);
        assert(prefix.drop_last() =~= dirs@.subrange(0, i as int));
        match synthesize_module(&dirs[i]) {
            Err(x) => {
                proof {
                    lemma_plan_fault_prefix(dirs@, i + 1);
                }
                return Err(x);
            },
            Ok(m) => {
                ms.push(m);
            },
        }
        assert(planned(prefix, ms@));
        i = i + 1;
    }
    assert(dirs@.subrange(0, n as int) =~= dirs@);
    Ok(ms)
}

proof fn lemma_plan_fault_prefix(ds: Seq<SourceDir>, k: int)
    requires
        0 <= k <= ds.len(),
        plan_fault(ds.subrange(0, k)) is Some,
    ensures
        plan_fault(ds) == plan_fault(ds.subrange(0, k)),
    decreases ds.len() - k,
{
    if k < ds.len() {
        assert(ds.subrange(0, k + 1).drop_last() =~= ds.subrange(0, k));
        lemma_plan_fault_prefix(ds, k + 1);
    } else {
        assert(ds.subrange(0, k) =~= ds);
    }
}

proof fn lemma_same_entries_agree(dir: Seq<char>, rel: Seq<char>, a: Seq<SourceEntry>, b: Seq<SourceEntry>)
    requires
        same_entries(a, b),
    ensures
        first_fault(dir, a) == first_fault(dir, b),
        submodules_text(a) == submodules_text(b),
        declarations_text(dir, a) == declarations_text(dir, b),
        config_jobs_of(dir, rel, a) == config_jobs_of(dir, rel, b),
    decreases a.len(),
{
    if a.len() > 0 {
        assert(same_entries(a.drop_last(), b.drop_last()));
        lemma_same_entries_agree(dir, rel, a.drop_last(), b.drop_last());
        assert(a.last().name@ == b.last().name@);
        assert(entry_fault(dir, a.last()) == entry_fault(dir, b.last()));
        assert(entry_decl(dir, a.last()) == entry_decl(dir, b.last()));
        assert(entry_job(dir, rel, a.last()) == entry_job(dir, rel, b.last()));
    }
}

/// A run depends on the source tree alone: two runs over the same tree fail
/// alike, or write the same index files with the same content, byte for byte,
/// and ask for the same accessor files. As each run first clears the
/// destination, the second leaves it as the first did.
pub proof fn rerun_reproduces_tree(a: Seq<SourceDir>, b: Seq<SourceDir>)
    requires
        same_tree(a, b),
    ensures
        plan_fault(a) == plan_fault(b),
        index_files(a) == index_files(b),
        accessor_jobs(a) == accessor_jobs(b),
    decreases a.len(),
{
    if a.len() > 0 {
        assert(same_tree(a.drop_last(), b.drop_last()));
        rerun_reproduces_tree(a.drop_last(), b.drop_last());
        let (x, y) = (a.last(), b.last());
        lemma_same_entries_agree(x.path@, x.rel_path@, x.entries@, y.entries@);
    }
    assert forall|i: int| 0 <= i < a.len() implies index_files(a)[i] == index_files(b)[i]
        && accessor_jobs(a)[i] == accessor_jobs(b)[i] by {
        lemma_same_entries_agree(a[i].path@, a[i].rel_path@, a[i].entries@, b[i].entries@);
    }
    assert(index_files(a) =~= index_files(b));
    assert(accessor_jobs(a) =~= accessor_jobs(b));
}

/// The modules of a plan are the index files of the model: module `i` is
/// written at the index path of its directory with the text the model gives.
pub proof fn planned_modules_are_index_files(ds: Seq<SourceDir>, ms: Seq<GeneratedModule>)
    requires
        planned(ds, ms),
    ensures
        index_files(ds).len() == ms.len(),
        forall|i: int|
            0 <= i < ms.len() ==> index_files(ds)[i] == (
                index_path((#[trigger] ms[i]).path@),
                ms[i].text@,
            ),
{
    assert forall|i: int| 0 <= i < ms.len() implies index_files(ds)[i] == (
        index_path((#[trigger] ms[i]).path@),
        ms[i].text@,
    ) by {
        assert(module_of(ds[i], ms[i]));
    }
}

/// The relative paths of the source directories.
pub open spec fn source_dirs(ds: Seq<SourceDir>) -> Set<Seq<char>> {
    Set::new(|p: Seq<char>| exists|i: int| 0 <= i < ds.len() && (#[trigger] ds[i]).rel_path@ == p)
}

/// The relative paths of the destination modules.
pub open spec fn dest_dirs(ms: Seq<GeneratedModule>) -> Set<Seq<char>> {
    Set::new(|p: Seq<char>| exists|j: int| 0 <= j < ms.len() && (#[trigger] ms[j]).path@ == p)
}

/// After a run, every source directory has a destination module at the same
/// relative path, and every destination module has its source directory.
pub proof fn destination_mirrors_source(ds: Seq<SourceDir>, ms: Seq<GeneratedModule>)
    requires
        planned(ds, ms),
    ensures
        dest_dirs(ms) == source_dirs(ds),
{
    assert forall|p: Seq<char>| source_dirs(ds).contains(p) implies dest_dirs(ms).contains(p) by {
        let i = choose|i: int| 0 <= i < ds.len() && (#[trigger] ds[i]).rel_path@ == p;
        assert(module_of(ds[i], ms[i]));
    }
    assert forall|p: Seq<char>| dest_dirs(ms).contains(p) implies source_dirs(ds).contains(p) by {
        let j = choose|j: int| 0 <= j < ms.len() && (#[trigger] ms[j]).path@ == p;
        assert(module_of(ds[j], ms[j]));
    }
    assert(dest_dirs(ms) =~= source_dirs(ds));
}

proof fn lemma_fault_at(dir: Seq<char>, es: Seq<SourceEntry>, k: int)
    requires
        0 <= k < es.len(),
        entry_fault(dir, es[k]) is Some,
    ensures
        first_fault(dir, es) is Some,
    decreases es.len(),
{
    if k < es.len() - 1 {
        assert(es.drop_last()[k] == es[k]);
        lemma_fault_at(dir, es.drop_last(), k);
    }
}

proof fn lemma_dir_fault_at(ds: Seq<SourceDir>, i: int)
    requires
        0 <= i < ds.len(),
        first_fault(ds[i].path@, ds[i].entries@) is Some,
    ensures
        plan_fault(ds) is Some,
    decreases ds.len(),
{
    if i < ds.len() - 1 {
        assert(ds.drop_last()[i] == ds[i]);
        lemma_dir_fault_at(ds.drop_last(), i);
    }
}

/// A file whose extension belongs to no asset kind fails the whole run: no
/// module is planned, so no index file is written for its directory or any
/// other.
pub proof fn unrecognized_extension_aborts(ds: Seq<SourceDir>, i: int, k: int)
    requires
        0 <= i < ds.len(),
        0 <= k < ds[i].entries@.len(),
        !ds[i].entries@[k].is_dir,
        has_extension(ds[i].entries@[k].name@),
        kind_of(extension_of(ds[i].entries@[k].name@)) == AssetKind::Unrecognized,
    ensures
        plan_fault(ds) is Some,
{
    lemma_fault_at(ds[i].path@, ds[i].entries@, k);
    lemma_dir_fault_at(ds, i);
}

} // verus!
