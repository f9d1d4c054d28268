//! The source tree of a frontend project: which files and directories in it are inputs of a build.

use vstd::prelude::*;

#[allow(unused_imports)]
use crate::joining::{is_entry_name, is_settled, lemma_entry_components};
use crate::paths::{join_bytes, path_starts_with, paths_equal, same_bytes, PathStyle};
#[allow(unused_imports)]
use crate::paths::{components, joined, same_path, starts_with, Component};

verus! {

/// What tells one state of a file from another: its length, and the time of its last modification
/// in nanoseconds.
#[derive(Clone, Copy, Debug, PartialEq, Eq, Structural)]
pub struct FileStamp {
    pub len: u64,
    pub modified: u64,
}

/// The entries of a directory, where it could be read.
#[derive(Debug)]
pub enum Listing {
    Unread,
    Read(Vec<SourceEntry>),
}

/// An entry of a directory.
#[derive(Debug)]
pub struct SourceEntry {
    pub name: Vec<u8>,
    pub kind: EntryKind,
}

/// What an entry of a directory is. Symbolic links are not followed, so they are `Other`.
#[derive(Debug)]
pub enum EntryKind {
    File(FileStamp),
    Dir(Listing),
    Other,
}

/// An input of a build: a file with its state, or a directory.
#[derive(Debug, PartialEq, Eq)]
pub struct Source<Path> {
    pub path: Path,
    pub file: Option<FileStamp>,
}

/// A source with its path taken as a byte sequence.
pub open spec fn source_view(source: Source<Vec<u8>>) -> Source<Seq<u8>> {
    Source { path: source.path@, file: source.file }
}

/// Sources with their paths taken as byte sequences.
pub open spec fn source_views(sources: Seq<Source<Vec<u8>>>) -> Seq<Source<Seq<u8>>> {
    sources.map_values(|source: Source<Vec<u8>>| source_view(source))
}

/// Whether a directory of this name holds dependencies, history or build output of other tools.
pub open spec fn is_foreign_dir(name: Seq<u8>) -> bool {
    ||| name == vstd::utf8::encode_utf8("node_modules"@)
    ||| name == vstd::utf8::encode_utf8(".git"@)
    ||| name == vstd::utf8::encode_utf8("target"@)
}

/// Whether the directory of this name and path is passed over: a foreign one, or the one that
/// holds the build output.
pub open spec fn is_excluded(
    name: Seq<u8>,
    path: Seq<u8>,
    dist_dir: Seq<u8>,
    style: PathStyle,
) -> bool {
    is_foreign_dir(name) || same_path(path, dist_dir, style)
}

/// The sources in a directory and below it, in the order of the listings: the directory itself,
/// unless it leads to the build output, then what its entries contribute. A directory that could
/// not be read contributes nothing.
pub open spec fn collected(
    dir: Seq<u8>,
    listing: Listing,
    dist_dir: Seq<u8>,
    style: PathStyle,
) -> Seq<Source<Seq<u8>>>
    decreases listing,
{
    match listing {
        Listing::Unread => seq![],
        Listing::Read(entries) => collected_dir(dir, dist_dir, style) + collected_entries(
            dir,
            entries@,
            dist_dir,
            style,
        ),
    }
}

/// A directory's own contribution.
pub open spec fn collected_dir(
    dir: Seq<u8>,
    dist_dir: Seq<u8>,
    style: PathStyle,
) -> Seq<Source<Seq<u8>>> {
    if starts_with(dist_dir, dir, style) {
        seq![]
    } else {
        seq![Source { path: dir, file: None }]
    }
}

/// What the entries of a directory contribute, one after the other.
pub open spec fn collected_entries(
    dir: Seq<u8>,
    entries: Seq<SourceEntry>,
    dist_dir: Seq<u8>,
    style: PathStyle,
) -> Seq<Source<Seq<u8>>>
    decreases entries,
{
    if entries.len() == 0 {
        seq![]
    } else {
        collected_entries(dir, entries.drop_last(), dist_dir, style) + collected_entry(
            dir,
            entries.last(),
            dist_dir,
            style,
        )
    }
}

/// What an entry of a directory contributes.
pub open spec fn collected_entry(
    dir: Seq<u8>,
    entry: SourceEntry,
    dist_dir: Seq<u8>,
    style: PathStyle,
) -> Seq<
    Source<Seq<u8>>,
>
    decreases entry,
{
    let path = joined(dir, entry.name@, style);
    match entry.kind {
        EntryKind::File(stamp) => seq![Source { path, file: Some(stamp) }],
        EntryKind::Dir(listing) => if is_excluded(entry.name@, path, dist_dir, style) {
            seq![]
        } else {
            collected(path, listing, dist_dir, style)
        },
        EntryKind::Other => seq![],
    }
}

/// Whether the directory of this name and path is passed over.
pub fn excluded(name: &[u8], path: &[u8], dist_dir: &[u8], style: PathStyle) -> (yes: bool)
    ensures
        yes == is_excluded(name@, path@, dist_dir@, style),
{
    same_bytes(name, "node_modules".as_bytes()) || same_bytes(name, ".git".as_bytes())
        || same_bytes(name, "target".as_bytes()) || paths_equal(path, dist_dir, style)
}

/// Adds the sources in the directory `dir` and below it to `out`.
pub fn collect_paths(
    dir: &Vec<u8>,
    listing: &Listing,
    dist_dir: &[u8],
    out: &mut Vec<Source<Vec<u8>>>,
    style: PathStyle,
)
    ensures
        source_views(final(out)@) == source_views(old(out)@) + collected(
            dir@,
            *listing,
            dist_dir@,
            style,
        ),
    decreases listing,
{
    let entries = match listing {
        Listing::Unread => {
            assert(source_views(out@) =~= source_views(old(out)@) + seq![]);
            return;
        },
        Listing::Read(entries) => entries,
    };
    if !path_starts_with(dist_dir, dir.as_slice(), style) {
        out.push(Source { path: dir.clone(), file: None });
    }
    assert(source_views(out@) =~= source_views(old(out)@) + collected_dir(dir@, dist_dir@, style));
    assert(entries@.take(0) =~= seq![]);
    assert(source_views(out@) =~= source_views(old(out)@) + collected_dir(dir@, dist_dir@, style)
        + collected_entries(dir@, entries@.take(0), dist_dir@, style));
    let mut i: usize = 0;
    while i < entries.len()
        invariant
            i <= entries@.len(),
            *listing == Listing::Read(*entries),
            source_views(out@) == source_views(old(out)@) + collected_dir(dir@, dist_dir@, style)
                + collected_entries(dir@, entries@.take(i as int), dist_dir@, style),
        decreases entries.len() - i,
    {
        let entry = &entries[i];
        let ghost before = source_views(out@);
        let path = join_bytes(dir, &entry.name, style);
        match &entry.kind {
            EntryKind::File(stamp) => {
                out.push(Source { path, file: Some(*stamp) });
            },
            EntryKind::Dir(inner) => {
                if !excluded(entry.name.as_slice(), path.as_slice(), dist_dir, style) {
                    proof {
                        assert(decreases_to!(*listing => listing->Read_0));
                        assert(decreases_to!(*entries => entries@));
                        assert(decreases_to!(entries@ => entries@[i as int]));
                        assert(decreases_to!(*entry => entry.kind));
                        assert(decreases_to!(entry.kind => entry.kind->Dir_0));
                    }
                    collect_paths(&path, inner, dist_dir, out, style);
                }
            },
            EntryKind::Other => {},
        }
        i = i + 1;
        proof {
            assert(source_views(out@) =~= before + collected_entry(dir@, *entry, dist_dir@, style));
            assert(entries@.take(i as int).drop_last() =~= entries@.take(i - 1));
            assert(source_views(out@) =~= source_views(old(out)@) + collected_dir(
                dir@,
                dist_dir@,
                style,
            )
                + collected_entries(dir@, entries@.take(i as int), dist_dir@, style));
        }
    }
    assert(entries@.take(entries@.len() as int) =~= entries@);
    assert(source_views(out@) =~= source_views(old(out)@) + collected(
        dir@,
        *listing,
        dist_dir@,
        style,
    ));
}

/// Whether every name in a listing is one that a directory can give to an entry.
pub open spec fn proper_listing(listing: Listing, style: PathStyle) -> bool
    decreases listing,
{
    match listing {
        Listing::Unread => true,
        Listing::Read(entries) => proper_entries(entries@, style),
    }
}

/// Whether every name in a list of entries is one that a directory can give to an entry.
pub open spec fn proper_entries(entries: Seq<SourceEntry>, style: PathStyle) -> bool
    decreases entries,
{
    entries.len() > 0 ==> {
        &&& proper_entries(entries.drop_last(), style)
        &&& proper_entry(entries.last(), style)
    }
}

/// Whether the name of an entry, and every name below it, is one that a directory can give.
pub open spec fn proper_entry(entry: SourceEntry, style: PathStyle) -> bool
    decreases entry,
{
    is_entry_name(entry.name@, style) && (match entry.kind {
        EntryKind::Dir(listing) => proper_listing(listing, style),
        _ => true,
    })
}

/// Whether tracking this source cannot make a build trigger the next one: it is no directory that
/// leads to the build output, and it does not lie within the build output.
pub open spec fn outlives_build(source: Source<Seq<u8>>, dist_dir: Seq<u8>, style: PathStyle) -> bool {
    &&& source.file is None ==> !starts_with(dist_dir, source.path, style)
    &&& starts_with(source.path, dist_dir, style) ==> source.file is Some && same_path(
        source.path,
        dist_dir,
        style,
    )
}

/// Whether a component of a path is the name of a directory of dependencies, of history or of another
/// tool's build output.
pub open spec fn is_foreign_component(component: Component<Seq<u8>>) -> bool {
    component matches Component::Name(name) && is_foreign_dir(name)
}

/// Whether a source lies in `dir` and no directory between, itself included, is foreign.
pub open spec fn is_own(source: Source<Seq<u8>>, dir: Seq<u8>, style: PathStyle) -> bool {
    let all = components(source.path, style);
    let last = if source.file is Some {
        all.len() - 1
    } else {
        all.len() as int
    };
    &&& components(dir, style).is_prefix_of(all)
    &&& forall|i: int| components(dir, style).len() <= i < last ==> !is_foreign_component(
        #[trigger] all[i],
    )
}

/// No build triggers the next one. In a project that does not itself lie within its build output,
/// no directory is tracked whose modification time the build bumps when it rewrites the output,
/// and nothing in the output is tracked.
pub proof fn law_tracked_sources_outlive_builds(
    dir: Seq<u8>,
    listing: Listing,
    dist_dir: Seq<u8>,
    source: Source<Seq<u8>>,
    style: PathStyle,
)
    requires
        proper_listing(listing, style),
        is_settled(dir, style),
        !starts_with(dir, dist_dir, style),
        collected(dir, listing, dist_dir, style).contains(source),
    ensures
        outlives_build(source, dist_dir, style),
    decreases listing,
{
    let entries = listing->Read_0@;
    if !collected_dir(dir, dist_dir, style).contains(source) {
        lemma_entries_outlive_builds(dir, entries, dist_dir, source, style);
    }
}

proof fn lemma_entries_outlive_builds(
    dir: Seq<u8>,
    entries: Seq<SourceEntry>,
    dist_dir: Seq<u8>,
    source: Source<Seq<u8>>,
    style: PathStyle,
)
    requires
        proper_entries(entries, style),
        is_settled(dir, style),
        !starts_with(dir, dist_dir, style),
        collected_entries(dir, entries, dist_dir, style).contains(source),
    ensures
        outlives_build(source, dist_dir, style),
    decreases entries,
{
    if collected_entries(dir, entries.drop_last(), dist_dir, style).contains(source) {
        lemma_entries_outlive_builds(dir, entries.drop_last(), dist_dir, source, style);
    } else {
        let entry = entries.last();
        let path = joined(dir, entry.name@, style);
        reveal_with_fuel(proper_entry, 2);
        assert(proper_entry(entry, style));
        lemma_entry_components(dir, entry.name@, style);
        if starts_with(path, dist_dir, style) {
            lemma_prefix_of_push(
                components(dist_dir, style),
                components(dir, style),
                Component::Name(entry.name@),
            );
        }
        assert(collected_entry(dir, entry, dist_dir, style).contains(source));
        if entry.kind is Dir {
            law_tracked_sources_outlive_builds(path, entry.kind->Dir_0, dist_dir, source, style);
        }
    }
}

/// A prefix of an extended sequence is a prefix of the sequence, or all of the extended one.
proof fn lemma_prefix_of_push<T>(part: Seq<T>, all: Seq<T>, last: T)
    requires
        part.is_prefix_of(all.push(last)),
    ensures
        part.is_prefix_of(all) || part == all.push(last),
{
    if part.len() <= all.len() {
        assert(part =~= all.subrange(0, part.len() as int));
    } else {
        assert(part =~= all.push(last));
    }
}

/// Only the project's own sources are tracked: all of them lie in the project's directory, and
/// none in a directory of dependencies, of history or of another tool's build output.
pub proof fn law_tracked_sources_are_own(
    dir: Seq<u8>,
    listing: Listing,
    dist_dir: Seq<u8>,
    source: Source<Seq<u8>>,
    style: PathStyle,
)
    requires
        proper_listing(listing, style),
        is_settled(dir, style),
        collected(dir, listing, dist_dir, style).contains(source),
    ensures
        is_own(source, dir, style),
    decreases listing,
{
    let entries = listing->Read_0@;
    if collected_dir(dir, dist_dir, style).contains(source) {
        assert(components(dir, style).is_prefix_of(components(source.path, style)));
    } else {
        lemma_entries_are_own(dir, entries, dist_dir, source, style);
    }
}

proof fn lemma_entries_are_own(
    dir: Seq<u8>,
    entries: Seq<SourceEntry>,
    dist_dir: Seq<u8>,
    source: Source<Seq<u8>>,
    style: PathStyle,
)
    requires
        proper_entries(entries, style),
        is_settled(dir, style),
        collected_entries(dir, entries, dist_dir, style).contains(source),
    ensures
        is_own(source, dir, style),
    decreases entries,
{
    if collected_entries(dir, entries.drop_last(), dist_dir, style).contains(source) {
        lemma_entries_are_own(dir, entries.drop_last(), dist_dir, source, style);
    } else {
        let entry = entries.last();
        let path = joined(dir, entry.name@, style);
        reveal_with_fuel(proper_entry, 2);
        assert(proper_entry(entry, style));
        lemma_entry_components(dir, entry.name@, style);
        assert(collected_entry(dir, entry, dist_dir, style).contains(source));
        if entry.kind is Dir {
            law_tracked_sources_are_own(path, entry.kind->Dir_0, dist_dir, source, style);
            let n = components(dir, style).len() as int;
            let all = components(source.path, style);
            assert(components(path, style)[n] == Component::Name(entry.name@));
            assert(all.subrange(0, n + 1)[n] == Component::Name(entry.name@));
            assert(components(dir, style) =~= all.subrange(0, n));
        }
        assert(components(dir, style).is_prefix_of(components(source.path, style)));
    }
}

/// Nothing is missed: every file of a directory that is read is tracked, and so is everything that
/// is tracked in a directory below it, unless that one is passed over.
pub proof fn law_no_source_is_missed(
    dir: Seq<u8>,
    entries: Vec<SourceEntry>,
    dist_dir: Seq<u8>,
    k: int,
    style: PathStyle,
)
    requires
        0 <= k < entries@.len(),
    ensures
        forall|source: Source<Seq<u8>>|
            collected_entry(dir, entries@[k], dist_dir, style).contains(source)
                ==> #[trigger] collected(dir, Listing::Read(entries), dist_dir, style).contains(source),
        entries@[k].kind matches EntryKind::File(stamp) ==> collected(
            dir,
            Listing::Read(entries),
            dist_dir,
            style,
        ).contains(
            Source { path: joined(dir, entries@[k].name@, style), file: Some(stamp) },
        ),
{
    let all = collected(dir, Listing::Read(entries), dist_dir, style);
    assert forall|source: Source<Seq<u8>>|
        collected_entry(
            dir,
            entries@[k],
            dist_dir,
            style,
        ).contains(source) implies #[trigger] all.contains(
        source,
    ) by {
        lemma_entry_is_collected(dir, entries@, dist_dir, k, source, style);
        lemma_contains_right(
            collected_dir(dir, dist_dir, style),
            collected_entries(dir, entries@, dist_dir, style),
            source,
        );
    }
    if entries@[k].kind is File {
        let source = Source {
            path: joined(dir, entries@[k].name@, style),
            file: Some(entries@[k].kind->File_0),
        };
        assert(collected_entry(dir, entries@[k], dist_dir, style)[0] == source);
        assert(all.contains(source));
    }
}

proof fn lemma_entry_is_collected(
    dir: Seq<u8>,
    entries: Seq<SourceEntry>,
    dist_dir: Seq<u8>,
    k: int,
    source: Source<Seq<u8>>,
    style: PathStyle,
)
    requires
        0 <= k < entries.len(),
        collected_entry(dir, entries[k], dist_dir, style).contains(source),
    ensures
        collected_entries(dir, entries, dist_dir, style).contains(source),
    decreases entries.len(),
{
    let before = collected_entries(dir, entries.drop_last(), dist_dir, style);
    let last = collected_entry(dir, entries.last(), dist_dir, style);
    if k == entries.len() - 1 {
        lemma_contains_right(before, last, source);
    } else {
        lemma_entry_is_collected(dir, entries.drop_last(), dist_dir, k, source, style);
        let i = choose|i: int| 0 <= i < before.len() && before[i] == source;
        assert((before + last)[i] == source);
    }
}

proof fn lemma_contains_right<T>(left: Seq<T>, right: Seq<T>, item: T)
    requires
        right.contains(item),
    ensures
        (left + right).contains(item),
{
    let i = choose|i: int| 0 <= i < right.len() && right[i] == item;
    assert((left + right)[left.len() + i] == item);
}

/// What a directory that is passed over holds makes no difference, so it need not be read.
pub proof fn law_excluded_directories_need_no_reading(
    dir: Seq<u8>,
    name: Vec<u8>,
    one: Listing,
    other: Listing,
    dist_dir: Seq<u8>,
    style: PathStyle,
)
    requires
        is_excluded(name@, joined(dir, name@, style), dist_dir, style),
    ensures
        collected_entry(dir, SourceEntry { name, kind: EntryKind::Dir(one) }, dist_dir, style)
            == collected_entry(dir, SourceEntry { name, kind: EntryKind::Dir(other) }, dist_dir, style),
{
}

/// Whether an entry is a directory that is passed over.
pub open spec fn is_passed_over(
    dir: Seq<u8>,
    entry: SourceEntry,
    dist_dir: Seq<u8>,
    style: PathStyle,
) -> bool {
    entry.kind is Dir && is_excluded(entry.name@, joined(dir, entry.name@, style), dist_dir, style)
}

/// Whether two listings of a directory differ at most in directories that are passed over, in it or
/// below it: in what these hold, and in whether they are there at all.
pub open spec fn alike(
    dir: Seq<u8>,
    one: Listing,
    other: Listing,
    dist_dir: Seq<u8>,
    style: PathStyle,
) -> bool
    decreases one, other,
{
    match (one, other) {
        (Listing::Unread, Listing::Unread) => true,
        (Listing::Read(a), Listing::Read(b)) => alike_entries(dir, a@, b@, dist_dir, style),
        _ => false,
    }
}

/// Whether two lists of entries are alike, without those that are passed over.
pub open spec fn alike_entries(
    dir: Seq<u8>,
    one: Seq<SourceEntry>,
    other: Seq<SourceEntry>,
    dist_dir: Seq<u8>,
    style: PathStyle,
) -> bool
    decreases one, other,
{
    if one.len() > 0 && is_passed_over(dir, one.last(), dist_dir, style) {
        alike_entries(dir, one.drop_last(), other, dist_dir, style)
    } else if other.len() > 0 && is_passed_over(dir, other.last(), dist_dir, style) {
        alike_entries(dir, one, other.drop_last(), dist_dir, style)
    } else if one.len() == 0 || other.len() == 0 {
        one.len() == other.len()
    } else {
        &&& alike_entries(dir, one.drop_last(), other.drop_last(), dist_dir, style)
        &&& alike_entry(dir, one.last(), other.last(), dist_dir, style)
    }
}

/// Whether two entries have the same name and are the same file, alike directories or neither.
pub open spec fn alike_entry(
    dir: Seq<u8>,
    one: SourceEntry,
    other: SourceEntry,
    dist_dir: Seq<u8>,
    style: PathStyle,
) -> bool
    decreases one, other,
{
    &&& one.name@ == other.name@
    &&& match (one.kind, other.kind) {
        (EntryKind::File(a), EntryKind::File(b)) => a == b,
        (EntryKind::Dir(a), EntryKind::Dir(b)) => alike(
            joined(dir, one.name@, style),
            a,
            b,
            dist_dir,
            style,
        ),
        (EntryKind::Other, EntryKind::Other) => true,
        _ => false,
    }
}

/// Directories that are passed over make no difference, whether or not they are there: two listings
/// that differ at most in them have the same sources. So a build that makes the output directory
/// leaves the project's sources as they were.
pub proof fn law_passed_over_directories_make_no_difference(
    dir: Seq<u8>,
    one: Listing,
    other: Listing,
    dist_dir: Seq<u8>,
    style: PathStyle,
)
    requires
        alike(dir, one, other, dist_dir, style),
    ensures
        collected(dir, one, dist_dir, style) == collected(dir, other, dist_dir, style),
    decreases one, other,
{
    if one is Read {
        lemma_alike_entries(dir, one->Read_0@, other->Read_0@, dist_dir, style);
    }
}

proof fn lemma_alike_entries(
    dir: Seq<u8>,
    one: Seq<SourceEntry>,
    other: Seq<SourceEntry>,
    dist_dir: Seq<u8>,
    style: PathStyle,
)
    requires
        alike_entries(dir, one, other, dist_dir, style),
    ensures
        collected_entries(dir, one, dist_dir, style) == collected_entries(dir, other, dist_dir, style),
    decreases one, other,
{
    if one.len() > 0 && is_passed_over(dir, one.last(), dist_dir, style) {
        lemma_alike_entries(dir, one.drop_last(), other, dist_dir, style);
        assert(collected_entry(dir, one.last(), dist_dir, style) =~= seq![]);
        assert(collected_entries(dir, one, dist_dir, style) =~= collected_entries(
            dir,
            one.drop_last(),
            dist_dir,
            style,
        ));
    } else if other.len() > 0 && is_passed_over(dir, other.last(), dist_dir, style) {
        lemma_alike_entries(dir, one, other.drop_last(), dist_dir, style);
        assert(collected_entry(dir, other.last(), dist_dir, style) =~= seq![]);
        assert(collected_entries(dir, other, dist_dir, style) =~= collected_entries(
            dir,
            other.drop_last(),
            dist_dir,
            style,
        ));
    } else if one.len() > 0 && other.len() > 0 {
        lemma_alike_entries(dir, one.drop_last(), other.drop_last(), dist_dir, style);
        let a = one.last();
        let b = other.last();
        reveal_with_fuel(alike_entry, 2);
        assert(alike_entry(dir, a, b, dist_dir, style));
        if a.kind is Dir {
            law_passed_over_directories_make_no_difference(
                joined(dir, a.name@, style),
                a.kind->Dir_0,
                b.kind->Dir_0,
                dist_dir,
                style,
            );
        }
        assert(collected_entry(dir, a, dist_dir, style) == collected_entry(dir, b, dist_dir, style));
    }
}

/// A directory is passed over if and only if it is named `node_modules`, `.git` or `target`, in just
/// these letters, or is the output directory, wherever it lies.
pub proof fn law_passed_over_directories(
    name: Seq<u8>,
    path: Seq<u8>,
    dist_dir: Seq<u8>,
    style: PathStyle,
)
    ensures
        is_excluded(name, path, dist_dir, style) <==> {
            ||| name == vstd::utf8::encode_utf8("node_modules"@)
            ||| name == vstd::utf8::encode_utf8(".git"@)
            ||| name == vstd::utf8::encode_utf8("target"@)
            ||| components(path, style) == components(dist_dir, style)
        },
{
}

/// A directory that can be read is tracked itself, before its entries, if and only if the output
/// directory is neither it nor lies in it; one that cannot be read is not tracked.
pub proof fn law_directories_are_tracked(
    dir: Seq<u8>,
    entries: Vec<SourceEntry>,
    dist_dir: Seq<u8>,
    style: PathStyle,
)
    requires
        entries@.len() == 0,
    ensures
        collected(dir, Listing::Unread, dist_dir, style) == Seq::<Source<Seq<u8>>>::empty(),
        collected(dir, Listing::Read(entries), dist_dir, style) == if components(dir, style).is_prefix_of(
            components(dist_dir, style),
        ) {
            Seq::<Source<Seq<u8>>>::empty()
        } else {
            seq![Source { path: dir, file: None }]
        },
{
    assert(collected_entries(dir, entries@, dist_dir, style) =~= seq![]);
    assert(collected(dir, Listing::Read(entries), dist_dir, style) =~= collected_dir(
        dir,
        dist_dir,
        style,
    ));
}

/// One more entry adds to what is tracked, behind the rest: a file itself, a directory that is not
/// passed over all that is tracked in it, and anything else, such as a symbolic link, nothing.
pub proof fn law_entry_adds_its_sources(
    dir: Seq<u8>,
    before: Vec<SourceEntry>,
    entry: SourceEntry,
    after: Vec<SourceEntry>,
    dist_dir: Seq<u8>,
    style: PathStyle,
)
    requires
        after@ == before@.push(entry),
    ensures
        ({
            let path = joined(dir, entry.name@, style);
            let all = collected(dir, Listing::Read(after), dist_dir, style);
            let rest = collected(dir, Listing::Read(before), dist_dir, style);
            &&& entry.kind matches EntryKind::File(stamp) ==> all == rest.push(
                Source { path, file: Some(stamp) },
            )
            &&& entry.kind is Other ==> all == rest
            &&& entry.kind matches EntryKind::Dir(listing) ==> all == if is_excluded(
                entry.name@,
                path,
                dist_dir,
                style,
            ) {
                rest
            } else {
                rest + collected(path, listing, dist_dir, style)
            }
        }),
{
    let own = collected_dir(dir, dist_dir, style);
    let front = collected_entries(dir, before@, dist_dir, style);
    let last = collected_entry(dir, entry, dist_dir, style);
    assert(after@.drop_last() =~= before@);
    assert(collected_entries(dir, after@, dist_dir, style) == front + last);
    assert(own + (front + last) =~= (own + front) + last);
    let rest = collected(dir, Listing::Read(before), dist_dir, style);
    assert(rest == own + front);
    assert(rest + seq![] =~= rest);
    if entry.kind is File {
        let source = Source {
            path: joined(dir, entry.name@, style),
            file: Some(entry.kind->File_0),
        };
        assert(last == seq![source]);
        assert(rest + seq![source] =~= rest.push(source));
    }
}

} // verus!
