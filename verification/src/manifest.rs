//! The manifest of a build's sources: a file in cargo's `OUT_DIR` with one path to a line, which the
//! macro leaves for the build script of the next build.

use std::collections::hash_map::DefaultHasher;
#[allow(unused_imports)]
use std::hash::Hasher;
use vstd::prelude::*;
#[allow(unused_imports)]
use vstd::std_specs::hash::DefaultHasherAdditionalSpecFns;
#[allow(unused_imports)]
use vstd::utf8::{decode_utf8, encode_utf8, valid_utf8};

use crate::outside::utf8_text;
use crate::paths::{join, PathStyle};
#[allow(unused_imports)]
use crate::paths::{unit_strings, joined};
use crate::sources::{collect_paths, Listing, Source};
#[allow(unused_imports)]
use crate::sources::{collected, source_views};
use crate::text::{chars_of, hex_digits, lines_of, stands_at};
#[allow(unused_imports)]
use crate::text::{
    digit, hex_text, law_lines_end_in_line_feeds, lemma_line_break, lemma_line_break_at,
    line_break, lines, texts,
};

verus! {

/// A file of the manifest directory, with its contents where they were read.
#[derive(Debug)]
pub struct OutDirFile<Text> {
    pub name: Text,
    pub contents: Option<Text>,
}

/// A manifest to be written.
#[derive(Debug, PartialEq, Eq)]
pub struct Manifest<Text> {
    /// Where it is to be written.
    pub path: Text,
    pub body: Text,
}

/// What makes a build's sources known to cargo.
#[derive(Debug, PartialEq, Eq)]
pub struct Tracking<Text, Paths> {
    /// The paths to be declared to the compiler, where it takes such declarations.
    pub registered: Paths,
    /// The manifest for the build script, where there is one.
    pub manifest: Option<Manifest<Text>>,
}

impl<Text: DeepView> DeepView for Manifest<Text> {
    type V = Manifest<Text::V>;

    open spec fn deep_view(&self) -> Manifest<Text::V> {
        Manifest { path: self.path.deep_view(), body: self.body.deep_view() }
    }
}

impl DeepView for Tracking<String, Vec<Vec<u8>>> {
    type V = Tracking<Seq<char>, Seq<Seq<u8>>>;

    open spec fn deep_view(&self) -> Tracking<Seq<char>, Seq<Seq<u8>>> {
        Tracking {
            registered: unit_strings(self.registered@),
            manifest: self.manifest.deep_view(),
        }
    }
}

impl<Text: DeepView> DeepView for OutDirFile<Text> {
    type V = OutDirFile<Text::V>;

    open spec fn deep_view(&self) -> OutDirFile<Text::V> {
        OutDirFile { name: self.name.deep_view(), contents: self.contents.deep_view() }
    }
}

/// The number that stands for a project in the names of its files.
pub open spec fn project_key(project_path: Seq<char>) -> u64 {
    DefaultHasher::spec_finish(seq![encode_utf8(project_path)])
}

/// The name of the manifest of the project with this key.
pub open spec fn manifest_name(key: u64) -> Seq<char> {
    "trillium-frontend-"@ + hex_text(key as nat, 16) + ".paths"@
}

/// Whether a file of this name is a manifest.
pub open spec fn is_manifest_name(name: Seq<char>) -> bool {
    "trillium-frontend-"@.is_prefix_of(name) && ".paths"@.is_suffix_of(name)
}

/// What a path adds to a manifest: a line, where the path is valid UTF-8.
pub open spec fn manifest_line(path: Seq<u8>) -> Seq<char> {
    if valid_utf8(path) {
        decode_utf8(path).push('\n')
    } else {
        seq![]
    }
}

/// The manifest of these paths.
pub open spec fn manifest_text(paths: Seq<Seq<u8>>) -> Seq<char>
    decreases paths.len(),
{
    if paths.len() == 0 {
        seq![]
    } else {
        manifest_text(paths.drop_last()) + manifest_line(paths.last())
    }
}

/// The paths that a manifest names: its lines, but for the empty ones.
pub open spec fn recorded_paths(contents: Seq<char>) -> Seq<Seq<char>> {
    lines(contents).filter(|line: Seq<char>| line.len() > 0)
}

/// The paths that a file of the manifest directory names.
pub open spec fn paths_in(file: OutDirFile<Seq<char>>) -> Seq<Seq<char>> {
    if is_manifest_name(file.name) {
        match file.contents {
            Some(contents) => recorded_paths(contents),
            None => seq![],
        }
    } else {
        seq![]
    }
}

/// The paths that all files of the manifest directory name.
pub open spec fn all_paths_in(files: Seq<OutDirFile<Seq<char>>>) -> Seq<Seq<char>>
    decreases files.len(),
{
    if files.len() == 0 {
        seq![]
    } else {
        all_paths_in(files.drop_last()) + paths_in(files.last())
    }
}

/// The paths of sources.
pub open spec fn source_paths(sources: Seq<Source<Seq<u8>>>) -> Seq<Seq<u8>> {
    sources.map_values(|source: Source<Seq<u8>>| source.path)
}

/// The manifest of a project's sources, and where it goes.
pub open spec fn manifest_of(
    out_dir: Seq<char>,
    project_path: Seq<char>,
    sources: Seq<Source<Seq<u8>>>,
    style: PathStyle,
) -> Manifest<Seq<char>> {
    Manifest {
        path: joined(out_dir, manifest_name(project_key(project_path)), style),
        body: manifest_text(source_paths(sources)),
    }
}

/// The sources of a project.
pub open spec fn project_sources(
    project_path: Seq<char>,
    dist_dir: Seq<char>,
    listing: Listing,
    style: PathStyle,
) -> Seq<Source<Seq<u8>>> {
    collected(encode_utf8(project_path), listing, encode_utf8(dist_dir), style)
}

/// What makes a project's sources known to cargo: all of them are declared to the compiler, where
/// it takes such declarations, and written to a manifest, where there is a directory for it.
pub open spec fn tracking_of(
    project_path: Seq<char>,
    dist_dir: Seq<char>,
    listing: Listing,
    out_dir: Option<Seq<char>>,
    native: bool,
    style: PathStyle,
) -> Tracking<Seq<char>, Seq<Seq<u8>>> {
    let sources = project_sources(project_path, dist_dir, listing, style);
    Tracking {
        registered: if native {
            source_paths(sources)
        } else {
            seq![]
        },
        manifest: match out_dir {
            Some(out_dir) => Some(manifest_of(out_dir, project_path, sources, style)),
            None => None,
        },
    }
}

/// The number that stands for a project in the names of its files, so that the files of several
/// projects in one crate do not collide.
pub fn hash_project(project_path: &str) -> (key: u64)
    ensures
        key == project_key(project_path@),
{
    let mut hasher = DefaultHasher::new();
    hasher.write(project_path.as_bytes());
    assert(hasher@ =~= seq![encode_utf8(project_path@)]);
    hasher.finish()
}

/// The name of the manifest of the project with this key.
pub fn manifest_file_name(key: u64) -> (name: String)
    ensures
        name@ == manifest_name(key),
{
    "trillium-frontend-".to_owned().concat(hex_digits(key, 16).as_str()).concat(".paths")
}

/// Whether a file of this name is a manifest.
pub fn is_manifest(name: &str) -> (yes: bool)
    ensures
        yes == is_manifest_name(name@),
{
    let chars = chars_of(name);
    let prefix = chars_of("trillium-frontend-");
    let suffix = chars_of(".paths");
    if prefix.len() > chars.len() || suffix.len() > chars.len() {
        return false;
    }
    stands_at(&prefix, &chars, 0) && stands_at(&suffix, &chars, chars.len() - suffix.len())
}

/// The manifest of these sources.
pub fn manifest_body(sources: &Vec<Source<Vec<u8>>>) -> (body: String)
    ensures
        body@ == manifest_text(source_paths(source_views(sources@))),
{
    let ghost paths = source_paths(source_views(sources@));
    let mut body = String::new();
    let mut i: usize = 0;
    assert(body@ =~= manifest_text(paths.take(0)));
    while i < sources.len()
        invariant
            i <= sources@.len(),
            paths == source_paths(source_views(sources@)),
            body@ == manifest_text(paths.take(i as int)),
        decreases sources.len() - i,
    {
        let ghost before = body@;
        assert(paths[i as int] == sources@[i as int].path@);
        if let Some(text) = utf8_text(sources[i].path.as_slice()) {
            body.append(text.as_str());
            body.push('\n');
        }
        assert(body@ =~= before + manifest_line(paths[i as int]));
        i = i + 1;
        assert(paths.take(i as int).drop_last() =~= paths.take(i - 1));
    }
    assert(paths.take(i as int) =~= paths);
    body
}

/// The manifest of a project's sources, and where it goes.
pub fn write_manifest(
    out_dir: &str,
    project_path: &str,
    sources: &Vec<Source<Vec<u8>>>,
    style: PathStyle,
) -> (manifest: Manifest<String>)
    ensures
        manifest.deep_view() == manifest_of(out_dir@, project_path@, source_views(sources@), style),
{
    let name = manifest_file_name(hash_project(project_path));
    Manifest { path: join(out_dir, name.as_str(), style), body: manifest_body(sources) }
}

/// The paths that are to be declared to the compiler: all of them where it takes such declarations
/// (`native`), else none.
pub fn register_tracked(sources: &Vec<Source<Vec<u8>>>, native: bool) -> (paths: Vec<Vec<u8>>)
    ensures
        unit_strings(paths@) == if native {
            source_paths(source_views(sources@))
        } else {
            seq![]
        },
{
    let ghost all = source_paths(source_views(sources@));
    let mut paths: Vec<Vec<u8>> = Vec::new();
    if native {
        let mut i: usize = 0;
        assert(unit_strings(paths@) =~= all.take(0));
        while i < sources.len()
            invariant
                i <= sources@.len(),
                all == source_paths(source_views(sources@)),
                unit_strings(paths@) == all.take(i as int),
            decreases sources.len() - i,
        {
            let ghost before = unit_strings(paths@);
            paths.push(sources[i].path.clone());
            i = i + 1;
            assert(unit_strings(paths@) =~= before.push(all[i - 1]));
            assert(all.take(i as int) =~= before.push(all[i - 1]));
        }
        assert(all.take(i as int) =~= all);
    } else {
        assert(unit_strings(paths@) =~= seq![]);
    }
    paths
}

/// The sources of a project, found in the listing of its directory.
pub fn find_sources(
    project_path: &str,
    dist_dir: &str,
    listing: &Listing,
    style: PathStyle,
) -> (sources: Vec<
    Source<Vec<u8>>,
>)
    ensures
        source_views(sources@) == project_sources(project_path@, dist_dir@, *listing, style),
{
    let root = vstd::slice::slice_to_vec(project_path.as_bytes());
    let mut sources: Vec<Source<Vec<u8>>> = Vec::new();
    assert(source_views(sources@) =~= seq![]);
    collect_paths(&root, listing, dist_dir.as_bytes(), &mut sources, style);
    assert(source_views(sources@) =~= project_sources(project_path@, dist_dir@, *listing, style));
    sources
}

/// What makes a project's sources known to cargo, so that adding, removing or modifying one runs
/// the build again.
pub fn track_sources(
    project_path: &str,
    dist_dir: &str,
    listing: &Listing,
    out_dir: &Option<String>,
    native: bool,
    style: PathStyle,
) -> (tracking: Tracking<String, Vec<Vec<u8>>>)
    ensures
        tracking.deep_view() == tracking_of(
            project_path@,
            dist_dir@,
            *listing,
            out_dir.deep_view(),
            native,
            style,
        ),
{
    let sources = find_sources(project_path, dist_dir, listing, style);
    let registered = register_tracked(&sources, native);
    let manifest = match out_dir {
        Some(out_dir) => Some(write_manifest(out_dir.as_str(), project_path, &sources, style)),
        None => None,
    };
    Tracking { registered, manifest }
}

/// The paths that a manifest names.
pub fn manifest_paths(contents: &str) -> (paths: Vec<String>)
    ensures
        texts(paths@) == recorded_paths(contents@),
{
    let list = lines_of(contents);
    let ghost keep = |line: Seq<char>| line.len() > 0;
    let ghost all = texts(list@);
    let mut paths: Vec<String> = Vec::new();
    let mut i: usize = 0;
    reveal(Seq::filter);
    assert(texts(paths@) =~= all.take(0).filter(keep));
    while i < list.len()
        invariant
            i <= list@.len(),
            all == texts(list@),
            keep == (|line: Seq<char>| line.len() > 0),
            texts(paths@) == all.take(i as int).filter(keep),
        decreases list.len() - i,
    {
        let ghost before = texts(paths@);
        let line = list[i].clone();
        assert(all[i as int] == line@);
        if !line.as_str().is_empty() {
            paths.push(line);
            assert(texts(paths@) =~= before.push(line@));
        }
        i = i + 1;
        proof {
            assert(all.take(i as int).drop_last() =~= all.take(i - 1));
            assert(all.take(i as int).last() == all[i - 1]);
            reveal(Seq::filter);
        }
    }
    assert(all.take(i as int) =~= all);
    paths
}

/// The paths whose change makes cargo run the build script again: those in the manifests among
/// `files`, the files of cargo's `OUT_DIR`, or none where there is no such directory.
pub fn rerun_paths(files: Option<&Vec<OutDirFile<String>>>) -> (paths: Vec<String>)
    ensures
        texts(paths@) == (match files {
            Some(files) => all_paths_in(files.deep_view()),
            None => seq![],
        }),
{
    let mut paths: Vec<String> = Vec::new();
    assert(texts(paths@) =~= seq![]);
    let files = match files {
        Some(files) => files,
        None => {
            return paths;
        },
    };
    let ghost all = files.deep_view();
    let mut i: usize = 0;
    assert(texts(paths@) =~= all_paths_in(all.take(0)));
    while i < files.len()
        invariant
            i <= files@.len(),
            all == files.deep_view(),
            texts(paths@) == all_paths_in(all.take(i as int)),
        decreases files.len() - i,
    {
        let ghost before = texts(paths@);
        let file = &files[i];
        assert(all[i as int] == file.deep_view());
        if is_manifest(file.name.as_str()) {
            if let Some(contents) = &file.contents {
                let mut found = manifest_paths(contents.as_str());
                let ghost added = texts(found@);
                paths.append(&mut found);
                assert(texts(paths@) =~= before + added);
            }
        }
        assert(texts(paths@) =~= before + paths_in(all[i as int]));
        i = i + 1;
        assert(all.take(i as int).drop_last() =~= all.take(i - 1));
    }
    assert(all.take(i as int) =~= all);
    paths
}

/// The line by which a build script tells cargo of a path.
pub fn rerun_directive(path: &str) -> (line: String)
    ensures
        line@ == "cargo::rerun-if-changed="@ + path@,
{
    "cargo::rerun-if-changed=".to_owned().concat(path)
}

/// A text that makes one line of a manifest: it is not empty, holds no line feed, and does not end
/// in a carriage return, which would be taken for part of the line's end.
pub open spec fn is_line(text: Seq<char>) -> bool {
    text.len() > 0 && !text.contains('\n') && text.last() != '\r'
}

/// The paths that are valid UTF-8, as texts.
pub open spec fn utf8_texts(paths: Seq<Seq<u8>>) -> Seq<Seq<char>>
    decreases paths.len(),
{
    if paths.len() == 0 {
        seq![]
    } else if valid_utf8(paths.last()) {
        utf8_texts(paths.drop_last()).push(decode_utf8(paths.last()))
    } else {
        utf8_texts(paths.drop_last())
    }
}

/// What the build script reads is what the macro wrote: the paths in a manifest are, in order, all
/// the paths that are valid UTF-8.
pub proof fn law_manifest_reads_back(paths: Seq<Seq<u8>>)
    requires
        forall|i: int|
            0 <= i < paths.len() && valid_utf8(#[trigger] paths[i]) ==> is_line(
                decode_utf8(paths[i]),
            ),
    ensures
        recorded_paths(manifest_text(paths)) == utf8_texts(paths),
    decreases paths.len(),
{
    let keep = |line: Seq<char>| line.len() > 0;
    if paths.len() == 0 {
        reveal(Seq::filter);
        assert(lines(manifest_text(paths)).filter(keep) =~= seq![]);
    } else {
        let front = paths.drop_last();
        assert forall|i: int|
            0 <= i < front.len() && valid_utf8(#[trigger] front[i]) implies is_line(
            decode_utf8(front[i]),
        ) by {
            assert(front[i] == paths[i]);
        }
        law_manifest_reads_back(front);
        let path = paths.last();
        assert(path == paths[paths.len() - 1]);
        if valid_utf8(path) {
            let text = decode_utf8(path);
            lemma_manifest_ends_line(front);
            lemma_lines_append(manifest_text(front), text);
            assert(manifest_text(paths) =~= manifest_text(front) + text.push('\n'));
            reveal(Seq::filter);
            assert(lines(manifest_text(front)).push(text).drop_last() =~= lines(
                manifest_text(front),
            ));
        } else {
            assert(manifest_text(paths) =~= manifest_text(front));
        }
    }
}

/// A manifest is empty or ends in a line feed.
proof fn lemma_manifest_ends_line(paths: Seq<Seq<u8>>)
    ensures
        manifest_text(paths).len() > 0 ==> manifest_text(paths).last() == '\n',
    decreases paths.len(),
{
    if paths.len() > 0 {
        lemma_manifest_ends_line(paths.drop_last());
        if !valid_utf8(paths.last()) {
            assert(manifest_text(paths) =~= manifest_text(paths.drop_last()));
        }
    }
}

/// A line appended to a text of whole lines is its last line.
proof fn lemma_lines_append(text: Seq<char>, line: Seq<char>)
    requires
        text.len() > 0 ==> text.last() == '\n',
        is_line(line),
    ensures
        lines(text + line.push('\n')) == lines(text).push(line),
    decreases text.len(),
{
    let whole = text + line.push('\n');
    if text.len() == 0 {
        assert(whole =~= line.push('\n'));
        lemma_line_break_at(whole, line.len() as int);
        assert(whole.take(line.len() as int) =~= line);
        assert(whole.skip(line.len() as int + 1) =~= seq![]);
        assert(lines(whole.skip(line.len() as int + 1)) =~= seq![]);
        assert(lines(whole) =~= lines(text).push(line));
    } else {
        lemma_line_break(text);
        let k = line_break(text);
        assert(k < text.len()) by {
            if k == text.len() {
                assert(text[text.len() - 1] == '\n');
            }
        }
        assert forall|i: int| 0 <= i < k implies whole[i] != '\n' by {
            assert(whole[i] == text[i]);
        }
        lemma_line_break_at(whole, k);
        assert(whole.take(k) =~= text.take(k));
        let rest = text.skip(k + 1);
        assert(whole.skip(k + 1) =~= rest + line.push('\n'));
        if rest.len() > 0 {
            assert(rest.last() == text.last());
        }
        lemma_lines_append(rest, line);
        assert(lines(whole) =~= lines(text).push(line));
    }
}

/// The build script takes every file that the macro writes for a manifest.
pub proof fn law_manifest_is_recognised(key: u64)
    ensures
        is_manifest_name(manifest_name(key)),
{
    let prefix = "trillium-frontend-"@;
    let suffix = ".paths"@;
    let name = manifest_name(key);
    assert(prefix =~= name.subrange(0, prefix.len() as int));
    assert(suffix =~= name.subrange(name.len() - suffix.len(), name.len() as int));
}

/// The build script reads the paths that the macro wrote: of a file with a manifest's name and
/// text, it takes, in order, all the paths that are valid UTF-8.
pub proof fn law_written_manifest_is_read(key: u64, paths: Seq<Seq<u8>>)
    requires
        forall|i: int|
            0 <= i < paths.len() && valid_utf8(#[trigger] paths[i]) ==> is_line(
                decode_utf8(paths[i]),
            ),
    ensures
        paths_in(
            OutDirFile { name: manifest_name(key), contents: Some(manifest_text(paths)) },
        ) == utf8_texts(paths),
{
    law_manifest_is_recognised(key);
    law_manifest_reads_back(paths);
}

/// Where sources are declared both ways, the build script declares the same as the macro, as far as
/// the paths are valid UTF-8.
pub proof fn law_both_ways_declare_the_same(
    project_path: Seq<char>,
    dist_dir: Seq<char>,
    listing: Listing,
    out_dir: Seq<char>,
    style: PathStyle,
)
    requires
        ({
            let paths = source_paths(project_sources(project_path, dist_dir, listing, style));
            forall|i: int|
                0 <= i < paths.len() && valid_utf8(#[trigger] paths[i]) ==> is_line(
                    decode_utf8(paths[i]),
                )
        }),
    ensures
        ({
            let tracking = tracking_of(project_path, dist_dir, listing, Some(out_dir), true, style);
            &&& tracking.manifest is Some
            &&& recorded_paths(tracking.manifest->0.body) == utf8_texts(tracking.registered)
        }),
{
    law_manifest_reads_back(source_paths(project_sources(project_path, dist_dir, listing, style)));
}

/// The manifests of projects with different keys do not overwrite each other.
pub proof fn law_manifests_do_not_collide(one: u64, other: u64)
    requires
        one != other,
    ensures
        manifest_name(one) != manifest_name(other),
{
    let prefix = "trillium-frontend-"@;
    let a = hex_text(one as nat, 16);
    let b = hex_text(other as nat, 16);
    if manifest_name(one) == manifest_name(other) {
        lemma_hex_length(one as nat, 16);
        lemma_hex_length(other as nat, 16);
        let n = prefix.len() as int;
        assert(a =~= manifest_name(one).subrange(n, n + 16));
        assert(b =~= manifest_name(other).subrange(n, n + 16));
        assert(vstd::arithmetic::power::pow(16, 16) == 0x1_0000_0000_0000_0000) by {
            reveal_with_fuel(vstd::arithmetic::power::pow, 17);
        }
        lemma_hex_injective(one as nat, other as nat, 16);
    }
}

proof fn lemma_hex_length(n: nat, width: nat)
    ensures
        hex_text(n, width).len() == width,
    decreases width,
{
    if width > 0 {
        lemma_hex_length(n / 16, (width - 1) as nat);
    }
}

proof fn lemma_hex_injective(a: nat, b: nat, width: nat)
    requires
        hex_text(a, width) == hex_text(b, width),
        a < vstd::arithmetic::power::pow(16, width),
        b < vstd::arithmetic::power::pow(16, width),
    ensures
        a == b,
    decreases width,
{
    reveal(vstd::arithmetic::power::pow);
    if width > 0 {
        let shorter = (width - 1) as nat;
        let left = hex_text(a / 16, shorter);
        let right = hex_text(b / 16, shorter);
        assert(left =~= hex_text(a, width).drop_last());
        assert(right =~= hex_text(b, width).drop_last());
        assert(hex_text(a, width).last() == digit((a % 16) as int));
        assert(hex_text(b, width).last() == digit((b % 16) as int));
        lemma_digit_injective((a % 16) as int, (b % 16) as int);
        assert(vstd::arithmetic::power::pow(16, width) == 16 * vstd::arithmetic::power::pow(
            16,
            shorter,
        ));
        lemma_hex_injective(a / 16, b / 16, shorter);
    }
}

proof fn lemma_digit_injective(a: int, b: int)
    requires
        0 <= a < 16,
        0 <= b < 16,
        digit(a) == digit(b),
    ensures
        a == b,
{
}

/// Other files in the directory make no difference, wherever they stand between the manifests.
pub proof fn law_other_files_make_no_difference(
    before: Seq<OutDirFile<Seq<char>>>,
    other: OutDirFile<Seq<char>>,
    after: Seq<OutDirFile<Seq<char>>>,
)
    requires
        !is_manifest_name(other.name),
    ensures
        all_paths_in(before.push(other) + after) == all_paths_in(before + after),
{
    law_paths_are_united(before.push(other), after);
    law_paths_are_united(before, after);
    assert(before.push(other).drop_last() =~= before);
    assert(all_paths_in(before.push(other)) =~= all_paths_in(before));
}

/// The paths of two lists of files are those of the one followed by those of the other.
pub proof fn law_paths_are_united(
    files: Seq<OutDirFile<Seq<char>>>,
    more: Seq<OutDirFile<Seq<char>>>,
)
    ensures
        all_paths_in(files + more) == all_paths_in(files) + all_paths_in(more),
    decreases more.len(),
{
    if more.len() == 0 {
        assert(files + more =~= files);
        assert(all_paths_in(files + more) =~= all_paths_in(files) + all_paths_in(more));
    } else {
        law_paths_are_united(files, more.drop_last());
        assert((files + more).drop_last() =~= files + more.drop_last());
        assert(all_paths_in(files + more) =~= all_paths_in(files) + all_paths_in(more));
    }
}

/// A project is known to cargo by all of its sources, whatever else is asked for. Where the compiler
/// takes declarations, all are declared to it, whether or not there is a directory for a manifest;
/// where it does not, none is. Where there is such a directory, the manifest of all of them goes there,
/// whether or not the compiler takes declarations; where there is none, there is no manifest.
pub proof fn law_declarations_and_manifest_are_independent(
    project_path: Seq<char>,
    dist_dir: Seq<char>,
    listing: Listing,
    out_dir: Option<Seq<char>>,
    native: bool,
    style: PathStyle,
)
    ensures
        ({
            let tracking = tracking_of(project_path, dist_dir, listing, out_dir, native, style);
            let sources = collected(
                encode_utf8(project_path),
                listing,
                encode_utf8(dist_dir),
                style,
            );
            let paths = sources.map_values(|source: Source<Seq<u8>>| source.path);
            &&& native ==> tracking.registered == paths
            &&& !native ==> tracking.registered.len() == 0
            &&& tracking.manifest is Some <==> out_dir is Some
            &&& tracking.manifest matches Some(manifest) ==> {
                &&& manifest.body == manifest_text(paths)
                &&& manifest.path == joined(
                    out_dir->0,
                    "trillium-frontend-"@ + hex_text(project_key(project_path) as nat, 16) + ".paths"@,
                    style,
                )
            }
        }),
{
}

/// A manifest has a line for each path that is valid UTF-8, in order, and nothing for the others.
pub proof fn law_path_adds_its_line(paths: Seq<Seq<u8>>, path: Seq<u8>)
    ensures
        manifest_text(seq![]) == Seq::<char>::empty(),
        valid_utf8(path) ==> manifest_text(paths.push(path)) == manifest_text(paths) + decode_utf8(path)
            + seq!['\n'],
        !valid_utf8(path) ==> manifest_text(paths.push(path)) == manifest_text(paths),
{
    assert(paths.push(path).drop_last() =~= paths);
    assert(manifest_text(paths.push(path)) == manifest_text(paths) + manifest_line(path));
    if valid_utf8(path) {
        assert(manifest_text(paths) + manifest_line(path) =~= manifest_text(paths) + decode_utf8(path)
            + seq!['\n']);
    } else {
        assert(manifest_text(paths) + manifest_line(path) =~= manifest_text(paths));
    }
}

/// Each line of a manifest names the path that stands on it, unless the line is empty. A carriage
/// return before the line feed is part of the line's end.
pub proof fn law_line_names_its_path(line: Seq<char>, rest: Seq<char>)
    requires
        !line.contains('\n'),
    ensures
        ({
            let path = if line.len() > 0 && line.last() == '\r' {
                line.drop_last()
            } else {
                line
            };
            recorded_paths(line + seq!['\n'] + rest) == (if path.len() > 0 {
                seq![path]
            } else {
                seq![]
            }) + recorded_paths(rest)
        }),
        recorded_paths(line) == if line.len() > 0 {
            seq![line]
        } else {
            seq![]
        },
{
    let keep = |line: Seq<char>| line.len() > 0;
    law_lines_end_in_line_feeds(line, rest);
    let path = if line.len() > 0 && line.last() == '\r' {
        line.drop_last()
    } else {
        line
    };
    lemma_filter_first(path, lines(rest));
    lemma_filter_first(line, seq![]);
    assert(seq![line] + seq![] =~= seq![line]);
    reveal(Seq::filter);
    assert(Seq::<Seq<char>>::empty().filter(keep) =~= seq![]);
}

proof fn lemma_filter_first(line: Seq<char>, rest: Seq<Seq<char>>)
    ensures
        ({
            let keep = |line: Seq<char>| line.len() > 0;
            (seq![line] + rest).filter(keep) == (if line.len() > 0 {
                seq![line]
            } else {
                seq![]
            }) + rest.filter(keep)
        }),
    decreases rest.len(),
{
    let keep = |line: Seq<char>| line.len() > 0;
    reveal(Seq::filter);
    let all = seq![line] + rest;
    let first = if line.len() > 0 {
        seq![line]
    } else {
        seq![]
    };
    if rest.len() == 0 {
        assert(all =~= seq![line]);
        assert(all.drop_last() =~= seq![]);
        assert(all.filter(keep) =~= first + rest.filter(keep));
    } else {
        lemma_filter_first(line, rest.drop_last());
        assert(all.drop_last() =~= seq![line] + rest.drop_last());
        assert(all.last() == rest.last());
        assert(all.filter(keep) =~= first + rest.filter(keep));
    }
}

/// A file is read for a manifest if and only if its name begins with `trillium-frontend-` and ends in
/// `.paths`, and could be read; others name no path.
pub proof fn law_manifests_alone_are_read(name: Seq<char>, contents: Option<Seq<char>>)
    ensures
        ({
            let prefix = "trillium-frontend-"@;
            let suffix = ".paths"@;
            let named = name.len() >= 18 && name.take(18) == prefix && name.len() >= 6 && name.skip(
                name.len() - 6,
            ) == suffix;
            let found = all_paths_in(seq![OutDirFile { name, contents }]);
            &&& named && contents is Some ==> found == recorded_paths(contents->0)
            &&& !named || contents is None ==> found.len() == 0
        }),
        all_paths_in(seq![]).len() == 0,
{
    reveal_strlit("trillium-frontend-");
    reveal_strlit(".paths");
    let file = OutDirFile { name, contents };
    let files = seq![file];
    assert(files.drop_last() =~= seq![]);
    assert(all_paths_in(files.drop_last()) =~= seq![]);
    assert(all_paths_in(files) == all_paths_in(files.drop_last()) + paths_in(files.last()));
    assert(all_paths_in(files) =~= paths_in(file));
    if name.len() >= 18 {
        assert(name.take(18) =~= name.subrange(0, 18));
    }
    if name.len() >= 6 {
        assert(name.skip(name.len() - 6) =~= name.subrange(name.len() - 6, name.len() as int));
    }
}

/// The key of a project is made of its whole path: it is the hash of just the bytes of the path, which
/// no two paths have in common.
pub proof fn law_key_is_of_the_whole_path(one: Seq<char>, other: Seq<char>)
    ensures
        project_key(one) == DefaultHasher::spec_finish(seq![encode_utf8(one)]),
        one != other ==> encode_utf8(one) != encode_utf8(other),
{
    vstd::utf8::encode_utf8_decode_utf8(one);
    vstd::utf8::encode_utf8_decode_utf8(other);
}

/// The sources of a project are those in its directory, without those in its output directory.
pub proof fn law_sources_are_those_of_the_project(
    project_path: Seq<char>,
    dist_dir: Seq<char>,
    listing: Listing,
    style: PathStyle,
)
    ensures
        project_sources(project_path, dist_dir, listing, style) == collected(
            encode_utf8(project_path),
            listing,
            encode_utf8(dist_dir),
            style,
        ),
{
}

} // verus!
