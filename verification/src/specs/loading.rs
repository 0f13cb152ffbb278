//! From directory listings to a store of specs.
use crate::sorting;
use crate::sorting::Keyed;
use crate::specs::store;
use crate::specs::store::{
    AliasFallbackPolicy, ConflictView, PendingSpec, PendingView, SourceView, SpecEntryView,
    SpecSource, SpecStore, StoreView, EMBEDDED_VIRTUAL_DIR,
};
use crate::text;
use vstd::prelude::*;
use vstd::string::*;

verus! {

/// A file found in a spec directory.
#[derive(Debug)]
pub struct SpecFile {
    pub file_name: String,
    pub path: String,
    /// The name that the file's header declares, when it could be read.
    pub declared_name: Option<String>,
}

/// What listing one directory gave: its files, or why it cannot be listed. A
/// directory that is not there has no files.
#[derive(Debug)]
pub struct DirListing {
    pub dir: String,
    pub files: Result<Vec<SpecFile>, String>,
}

/// A spec that is compiled in, with the name that it declares.
#[derive(Debug)]
pub struct EmbeddedSpec {
    pub file_name: &'static str,
    pub contents: &'static str,
    pub name_alias: Option<&'static str>,
}

/// The store, and the directories that could not be listed.
#[derive(Debug)]
pub struct SpecLoadResult {
    pub store: SpecStore,
    pub directory_errors: Vec<String>,
}

#[verifier::ext_equal]
pub struct FileView {
    pub file_name: Seq<char>,
    pub path: Seq<char>,
    pub declared_name: Option<Seq<char>>,
}

impl View for SpecFile {
    type V = FileView;

    open spec fn view(&self) -> FileView {
        FileView {
            file_name: self.file_name@,
            path: self.path@,
            declared_name: text::opt_view(self.declared_name),
        }
    }
}

/// Whether the file name has the extension of a spec: something, and then
/// `.json`.
pub open spec fn is_spec_name(name: Seq<char>) -> bool {
    name.len() > 5 && ".json"@.is_suffix_of(name)
}

/// The file name without `.json`.
pub open spec fn stem_of(name: Seq<char>) -> Seq<char> {
    if ".json"@.is_suffix_of(name) {
        name.take(name.len() - 5)
    } else {
        name
    }
}

/// Whether the file name has the extension of a spec.
pub fn is_spec_file(name: &str) -> (r: bool)
    ensures
        r == is_spec_name(name@),
{
    name.unicode_len() > 5 && text::ends_with(name, ".json")
}

/// The file name without `.json`.
pub fn file_stem(name: &str) -> (r: &str)
    ensures
        r@ == stem_of(name@),
{
    proof {
        reveal_strlit(".json");
    }
    if text::ends_with(name, ".json") {
        let n = name.unicode_len();
        name.substring_char(0, n - 5)
    } else {
        name
    }
}

impl Keyed for SpecFile {
    open spec fn key_view(self) -> Seq<char> {
        stem_of(self.file_name@)
    }

    fn key(&self) -> (r: &str) {
        file_stem(&self.file_name)
    }
}

/// The spec files among `files`, in the order in which they are given.
pub open spec fn spec_files(files: Seq<SpecFile>) -> Seq<SpecFile> {
    files.filter(|f: SpecFile| is_spec_name(f.file_name@))
}

/// What a spec file is registered as.
pub open spec fn pending_file(dir: Seq<char>, f: SpecFile) -> PendingView {
    PendingView {
        filename_stem: stem_of(f.file_name@),
        name_alias: text::opt_view(f.declared_name),
        source_dir: dir,
        source: SourceView::Filesystem(f.path@),
    }
}

/// The specs of a directory, in order of their stems.
pub open spec fn pending_dir(dir: Seq<char>, files: Seq<SpecFile>) -> Seq<PendingView> {
    sorting::sorted(spec_files(files)).map_values(|f: SpecFile| pending_file(dir, f))
}

/// The specs of a directory, in order of their stems.
pub fn load_dir_into_pending(dir: &str, files: Vec<SpecFile>) -> (r: Vec<PendingSpec>)
    ensures
        store::pending_views(r@) == pending_dir(dir@, files@),
{
    let ghost all = files@;
    let ghost keep = |f: SpecFile| is_spec_name(f.file_name@);
    let mut rest = files;
    let mut kept: Vec<SpecFile> = Vec::new();
    let ghost mut n: int = 0;
    proof {
        assert(all.take(0) =~= Seq::empty());
        assert(all.skip(0) =~= all);
        reveal(Seq::filter);
    }
    while rest.len() > 0
        invariant
            0 <= n <= all.len(),
            keep == (|f: SpecFile| is_spec_name(f.file_name@)),
            rest@ == all.skip(n),
            kept@ == all.take(n).filter(keep),
        decreases rest.len(),
    {
        let f = rest.remove(0);
        proof {
            reveal(Seq::filter);
            assert(f == all[n]);
            assert(all.take(n + 1).drop_last() =~= all.take(n));
            assert(all.take(n + 1).last() == f);
            assert(rest@ =~= all.skip(n + 1));
            n = n + 1;
        }
        if is_spec_file(&f.file_name) {
            kept.push(f);
        }
    }
    assert(all.take(all.len() as int) =~= all);
    let ordered = sorting::sort(kept);
    let mut out: Vec<PendingSpec> = Vec::new();
    let mut i: usize = 0;
    while i < ordered.len()
        invariant
            i <= ordered.len(),
            out.len() == i,
            forall|j: int|
                0 <= j < i ==> (#[trigger] out@[j])@ == pending_file(dir@, ordered@[j]),
        decreases ordered.len() - i,
    {
        let f = &ordered[i];
        out.push(
            PendingSpec {
                filename_stem: file_stem(&f.file_name).to_owned(),
                name_alias: text::clone_opt(&f.declared_name),
                source_dir: dir.to_owned(),
                source: SpecSource::Filesystem(f.path.clone()),
            },
        );
        i += 1;
    }
    assert(store::pending_views(out@) =~= pending_dir(dir@, files@));
    out
}

/// A store without entries.
pub open spec fn empty_store() -> StoreView {
    StoreView {
        entries: Seq::<SpecEntryView>::empty(),
        index: Map::<Seq<char>, Seq<int>>::empty(),
        conflicts: Seq::<ConflictView>::empty(),
    }
}

/// The store after the directories, those that cannot be listed left out.
pub open spec fn loaded_dirs(ls: Seq<DirListing>) -> StoreView
    decreases ls.len(),
{
    if ls.len() == 0 {
        empty_store()
    } else {
        let st = loaded_dirs(ls.drop_last());
        match ls.last().files {
            Ok(files) => store::registered(
                st,
                pending_dir(ls.last().dir@, files@),
                AliasFallbackPolicy::KeepDirectoryPrecedence,
            ),
            Err(_) => st,
        }
    }
}

/// A line for each directory that cannot be listed.
pub open spec fn dir_errors(ls: Seq<DirListing>) -> Seq<Seq<char>>
    decreases ls.len(),
{
    if ls.len() == 0 {
        Seq::empty()
    } else {
        let rest = dir_errors(ls.drop_last());
        match ls.last().files {
            Ok(_) => rest,
            Err(e) => rest.push(ls.last().dir@ + ": "@ + e@),
        }
    }
}

/// The compiled-in specs as they are registered. A file without the `.json`
/// ending is none.
pub open spec fn pending_embedded(es: Seq<EmbeddedSpec>) -> Seq<PendingView>
    decreases es.len(),
{
    if es.len() == 0 {
        Seq::empty()
    } else {
        let rest = pending_embedded(es.drop_last());
        let e = es.last();
        if ".json"@.is_suffix_of(e.file_name@) {
            rest.push(
                PendingView {
                    filename_stem: stem_of(e.file_name@),
                    name_alias: match e.name_alias {
                        Some(n) => Some(n@),
                        None => None,
                    },
                    source_dir: EMBEDDED_VIRTUAL_DIR@,
                    source: SourceView::Embedded(e.contents@),
                },
            )
        } else {
            rest
        }
    }
}

fn embedded_pending(es: &Vec<EmbeddedSpec>) -> (r: Vec<PendingSpec>)
    ensures
        store::pending_views(r@) == pending_embedded(es@),
{
    let mut out: Vec<PendingSpec> = Vec::new();
    let mut i: usize = 0;
    proof {
        assert(es@.take(0) =~= Seq::empty());
        assert(store::pending_views(out@) =~= Seq::empty());
    }
    while i < es.len()
        invariant
            i <= es.len(),
            store::pending_views(out@) == pending_embedded(es@.take(i as int)),
        decreases es.len() - i,
    {
        let e = &es[i];
        proof {
            assert(es@.take(i + 1).drop_last() =~= es@.take(i as int));
            assert(es@.take(i + 1).last() == *e);
        }
        if text::ends_with(e.file_name, ".json") {
            let ghost before = out@;
            let p = PendingSpec {
                filename_stem: file_stem(e.file_name).to_owned(),
                name_alias: match e.name_alias {
                    Some(n) => Some(n.to_owned()),
                    None => None,
                },
                source_dir: EMBEDDED_VIRTUAL_DIR.to_owned(),
                source: SpecSource::Embedded(e.contents),
            };
            out.push(p);
            assert(store::pending_views(out@) =~= store::pending_views(before).push(p@));
        }
        i += 1;
    }
    assert(es@.take(es@.len() as int) =~= es@);
    out
}

impl SpecStore {
    /// Loads the specs of the listed directories. An earlier directory takes
    /// precedence; one that could not be listed is reported and hides none of
    /// the others.
    pub fn load_from_dirs(listings: Vec<DirListing>) -> (r: SpecLoadResult)
        ensures
            r.store.wf(),
            r.store@ == loaded_dirs(listings@),
            text::views(r.directory_errors@) == dir_errors(listings@),
    {
        let ghost all = listings@;
        let mut rest = listings;
        let mut store = SpecStore::new();
        let mut directory_errors: Vec<String> = Vec::new();
        let ghost mut n: int = 0;
        proof {
            assert(all.take(0) =~= Seq::empty());
            assert(all.skip(0) =~= all);
            assert(text::views(directory_errors@) =~= Seq::empty());
        }
        while rest.len() > 0
            invariant
                0 <= n <= all.len(),
                rest@ == all.skip(n),
                store.wf(),
                store@ == loaded_dirs(all.take(n)),
                text::views(directory_errors@) == dir_errors(all.take(n)),
            decreases rest.len(),
        {
            let listing = rest.remove(0);
            proof {
                assert(listing == all[n]);
                assert(all.take(n + 1).drop_last() =~= all.take(n));
                assert(all.take(n + 1).last() == listing);
                assert(rest@ =~= all.skip(n + 1));
                n = n + 1;
            }
            match listing.files {
                Ok(files) => {
                    let pending = load_dir_into_pending(&listing.dir, files);
                    store.register_entries(&pending, AliasFallbackPolicy::KeepDirectoryPrecedence);
                },
                Err(e) => {
                    let ghost before = directory_errors@;
                    let mut line = listing.dir;
                    line.append(": ");
                    line.append(&e);
                    directory_errors.push(line);
                    assert(text::views(directory_errors@) =~= text::views(before).push(line@));
                },
            }
        }
        assert(all.take(all.len() as int) =~= all);
        SpecLoadResult { store, directory_errors }
    }

    /// Loads the specs of one directory.
    pub fn load_from_dir(listing: DirListing) -> (r: SpecLoadResult)
        ensures
            r.store.wf(),
            r.store@ == loaded_dirs(seq![listing]),
            text::views(r.directory_errors@) == dir_errors(seq![listing]),
    {
        let mut one: Vec<DirListing> = Vec::new();
        one.push(listing);
        assert(one@ =~= seq![listing]);
        SpecStore::load_from_dirs(one)
    }

    /// Loads the specs of the listed directories, and behind them those that
    /// are compiled in.
    pub fn load_with_embedded(listings: Vec<DirListing>, embedded: &Vec<EmbeddedSpec>) -> (r:
        SpecLoadResult)
        ensures
            r.store.wf(),
            r.store@ == store::registered(
                loaded_dirs(listings@),
                pending_embedded(embedded@),
                AliasFallbackPolicy::KeepLowerPrecedence,
            ),
            text::views(r.directory_errors@) == dir_errors(listings@),
    {
        let mut loaded = SpecStore::load_from_dirs(listings);
        let pending = embedded_pending(embedded);
        loaded.store.register_entries(&pending, AliasFallbackPolicy::KeepLowerPrecedence);
        loaded
    }
}

/// Whatever is compiled in, an alias that the directories provide stays with
/// the same entry.
pub proof fn law_directories_beat_embedded(
    ls: Seq<DirListing>,
    es: Seq<EmbeddedSpec>,
    alias: Seq<char>,
)
    ensures
        ({
            let dirs = loaded_dirs(ls);
            let all = store::registered(
                dirs,
                pending_embedded(es),
                AliasFallbackPolicy::KeepLowerPrecedence,
            );
            crate::specs::alias_index::primary(dirs.index, alias) is Some
                ==> crate::specs::alias_index::primary(all.index, alias)
                == crate::specs::alias_index::primary(dirs.index, alias)
        }),
{
    crate::specs::store_laws::law_earlier_registration_wins(
        loaded_dirs(ls),
        pending_embedded(es),
        AliasFallbackPolicy::KeepLowerPrecedence,
    );
}

} // verus!
