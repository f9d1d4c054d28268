//! Whether a build is up to date: a build leaves a stamp that records what went into it, and is not
//! repeated in the same session as long as nothing of that has changed.

use vstd::bytes::u64_to_le_bytes;
#[allow(unused_imports)]
use vstd::bytes::{lemma_auto_spec_u64_to_from_le_bytes, spec_u64_from_le_bytes, spec_u64_to_le_bytes};
use vstd::prelude::*;
#[allow(unused_imports)]
use vstd::utf8::encode_utf8;

use crate::paths::same_bytes;
use crate::sources::Source;
#[allow(unused_imports)]
use crate::sources::{source_view, source_views};

verus! {

/// Bytes behind their number, so that a record tells where they end.
pub open spec fn section(bytes: Seq<u8>) -> Seq<u8> {
    spec_u64_to_le_bytes(bytes.len() as u64) + bytes
}

/// The record of a source: its path, and of a file its length and modification time.
pub open spec fn source_record(source: Source<Seq<u8>>) -> Seq<u8> {
    section(source.path) + (match source.file {
        None => seq![0u8],
        Some(stamp) => seq![1u8] + spec_u64_to_le_bytes(stamp.len) + spec_u64_to_le_bytes(
            stamp.modified,
        ),
    })
}

/// The records of sources, one after the other.
pub open spec fn sources_record(sources: Seq<Source<Seq<u8>>>) -> Seq<u8>
    decreases sources.len(),
{
    if sources.len() == 0 {
        seq![]
    } else {
        source_record(sources[0]) + sources_record(sources.drop_first())
    }
}

/// The part of a stamp that is known before the build: its session, its command, its output directory
/// and its sources.
pub open spec fn input_stamp(
    session: Seq<char>,
    command: Seq<char>,
    dist_dir: Seq<char>,
    sources: Seq<Source<Seq<u8>>>,
) -> Seq<u8> {
    section(encode_utf8(session)) + section(encode_utf8(command)) + section(encode_utf8(dist_dir))
        + section(sources_record(sources))
}

/// The stamp of a build: its session, its command, its output directory, its sources as they were
/// before it, and what it left in the output directory.
pub open spec fn build_stamp(
    session: Seq<char>,
    command: Seq<char>,
    dist_dir: Seq<char>,
    sources: Seq<Source<Seq<u8>>>,
    output: Seq<Source<Seq<u8>>>,
) -> Seq<u8> {
    input_stamp(session, command, dist_dir, sources) + sources_record(output)
}

/// Whether a build is due: unless its output is there and the stamp of the last build says that
/// neither what goes into the build nor the output has changed since.
pub open spec fn is_stale(recorded: Option<Seq<u8>>, current: Seq<u8>, dist_exists: bool) -> bool {
    !(dist_exists && recorded == Some(current))
}

/// Appends `bytes` to `out`, behind their number.
fn push_section(out: &mut Vec<u8>, bytes: &[u8])
    ensures
        final(out)@ == old(out)@ + section(bytes@),
{
    let count = u64_to_le_bytes(bytes.len() as u64);
    out.extend_from_slice(count.as_slice());
    out.extend_from_slice(bytes);
    assert(out@ =~= old(out)@ + section(bytes@));
}

/// Appends the record of a source to `out`.
fn push_source(out: &mut Vec<u8>, source: &Source<Vec<u8>>)
    ensures
        final(out)@ == old(out)@ + source_record(source_view(*source)),
{
    push_section(out, source.path.as_slice());
    match source.file {
        None => {
            out.push(0);
        },
        Some(stamp) => {
            out.push(1);
            out.extend_from_slice(u64_to_le_bytes(stamp.len).as_slice());
            out.extend_from_slice(u64_to_le_bytes(stamp.modified).as_slice());
        },
    }
    assert(out@ =~= old(out)@ + source_record(source_view(*source)));
}

/// The records of sources, one after the other.
fn record_sources(sources: &Vec<Source<Vec<u8>>>) -> (record: Vec<u8>)
    ensures
        record@ == sources_record(source_views(sources@)),
{
    let ghost all = source_views(sources@);
    let mut record: Vec<u8> = Vec::new();
    let mut i: usize = 0;
    assert(all.skip(0) =~= all);
    assert(record@ + sources_record(all.skip(0)) =~= sources_record(all));
    while i < sources.len()
        invariant
            i <= sources@.len(),
            all == source_views(sources@),
            record@ + sources_record(all.skip(i as int)) == sources_record(all),
        decreases sources.len() - i,
    {
        let ghost rest = all.skip(i as int);
        let ghost before = record@;
        push_source(&mut record, &sources[i]);
        assert(rest[0] == source_view(sources@[i as int]));
        i = i + 1;
        assert(rest.drop_first() =~= all.skip(i as int));
        assert(record@ + sources_record(all.skip(i as int)) =~= before + sources_record(rest));
    }
    assert(all.skip(i as int) =~= seq![]);
    assert(record@ =~= sources_record(all));
    record
}

/// The part of a stamp that is known before the build.
pub fn stamp_input(
    session: &str,
    command: &str,
    dist_dir: &str,
    sources: &Vec<Source<Vec<u8>>>,
) -> (stamp: Vec<u8>)
    ensures
        stamp@ == input_stamp(session@, command@, dist_dir@, source_views(sources@)),
{
    let mut stamp: Vec<u8> = Vec::new();
    push_section(&mut stamp, session.as_bytes());
    push_section(&mut stamp, command.as_bytes());
    push_section(&mut stamp, dist_dir.as_bytes());
    push_section(&mut stamp, record_sources(sources).as_slice());
    assert(stamp@ =~= input_stamp(session@, command@, dist_dir@, source_views(sources@)));
    stamp
}

/// The stamp of a build: `input` and what the build left in the output directory.
pub fn stamp_build(input: &Vec<u8>, output: &Vec<Source<Vec<u8>>>) -> (stamp: Vec<u8>)
    ensures
        stamp@ == input@ + sources_record(source_views(output@)),
{
    let mut stamp = input.clone();
    stamp.extend_from_slice(record_sources(output).as_slice());
    stamp
}

/// Whether a build is due.
pub fn needs_build(recorded: &Option<Vec<u8>>, current: &Vec<u8>, dist_exists: bool) -> (due: bool)
    ensures
        due == is_stale(
            match *recorded {
                Some(stamp) => Some(stamp@),
                None => None,
            },
            current@,
            dist_exists,
        ),
{
    match recorded {
        Some(stamp) => !(dist_exists && same_bytes(stamp.as_slice(), current.as_slice())),
        None => true,
    }
}

/// Whether the numbers in a stamp can hold the lengths of what goes into it.
pub open spec fn recordable(
    session: Seq<char>,
    command: Seq<char>,
    dist_dir: Seq<char>,
    sources: Seq<Source<Seq<u8>>>,
    output: Seq<Source<Seq<u8>>>,
) -> bool {
    &&& encode_utf8(session).len() <= u64::MAX
    &&& encode_utf8(command).len() <= u64::MAX
    &&& encode_utf8(dist_dir).len() <= u64::MAX
    &&& sources_record(sources).len() <= u64::MAX
    &&& short_paths(sources)
    &&& short_paths(output)
}

/// Whether a number in a stamp can hold the length of each of these paths.
pub open spec fn short_paths(sources: Seq<Source<Seq<u8>>>) -> bool {
    forall|i: int| 0 <= i < sources.len() ==> (#[trigger] sources[i]).path.len() <= u64::MAX
}

/// No change goes unnoticed. The stamps of two builds are the same only where the sessions, the
/// commands, the output directories, the sources and the output are: so in another session, or with
/// any of the others changed since the last build was recorded, a build is due.
pub proof fn law_changes_are_noticed(
    session: Seq<char>,
    command: Seq<char>,
    dist_dir: Seq<char>,
    sources: Seq<Source<Seq<u8>>>,
    output: Seq<Source<Seq<u8>>>,
    new_session: Seq<char>,
    new_command: Seq<char>,
    new_dist_dir: Seq<char>,
    new_sources: Seq<Source<Seq<u8>>>,
    new_output: Seq<Source<Seq<u8>>>,
    dist_exists: bool,
)
    requires
        recordable(session, command, dist_dir, sources, output),
        recordable(new_session, new_command, new_dist_dir, new_sources, new_output),
        (session, command, dist_dir, sources, output) != (
            new_session,
            new_command,
            new_dist_dir,
            new_sources,
            new_output,
        ),
    ensures
        is_stale(
            Some(build_stamp(session, command, dist_dir, sources, output)),
            build_stamp(new_session, new_command, new_dist_dir, new_sources, new_output),
            dist_exists,
        ),
{
    let one = build_stamp(session, command, dist_dir, sources, output);
    let other = build_stamp(new_session, new_command, new_dist_dir, new_sources, new_output);
    if one == other {
        let tail_a = section(sources_record(sources)) + sources_record(output);
        let tail_b = section(sources_record(new_sources)) + sources_record(new_output);
        let a = section(encode_utf8(dist_dir)) + tail_a;
        let b = section(encode_utf8(new_dist_dir)) + tail_b;
        let all_a = section(encode_utf8(command)) + a;
        let all_b = section(encode_utf8(new_command)) + b;
        lemma_stamp_shape(session, command, dist_dir, sources, output);
        lemma_stamp_shape(new_session, new_command, new_dist_dir, new_sources, new_output);
        lemma_section_ends(encode_utf8(session), all_a, encode_utf8(new_session), all_b);
        lemma_section_ends(encode_utf8(command), a, encode_utf8(new_command), b);
        lemma_section_ends(encode_utf8(dist_dir), tail_a, encode_utf8(new_dist_dir), tail_b);
        lemma_section_ends(
            sources_record(sources),
            sources_record(output),
            sources_record(new_sources),
            sources_record(new_output),
        );
        vstd::utf8::encode_utf8_decode_utf8(session);
        vstd::utf8::encode_utf8_decode_utf8(new_session);
        vstd::utf8::encode_utf8_decode_utf8(command);
        vstd::utf8::encode_utf8_decode_utf8(new_command);
        vstd::utf8::encode_utf8_decode_utf8(dist_dir);
        vstd::utf8::encode_utf8_decode_utf8(new_dist_dir);
        lemma_sources_record_injective(sources, new_sources);
        lemma_sources_record_injective(output, new_output);
    }
}

/// A stamp is its session behind its number, and the rest.
proof fn lemma_stamp_shape(
    session: Seq<char>,
    command: Seq<char>,
    dist_dir: Seq<char>,
    sources: Seq<Source<Seq<u8>>>,
    output: Seq<Source<Seq<u8>>>,
)
    ensures
        build_stamp(session, command, dist_dir, sources, output) == section(encode_utf8(session)) + (
        section(encode_utf8(command)) + (section(encode_utf8(dist_dir)) + (section(
            sources_record(sources),
        ) + sources_record(output)))),
{
    lemma_concatenation(
        section(encode_utf8(session)),
        section(encode_utf8(command)),
        section(encode_utf8(dist_dir)),
        section(sources_record(sources)),
        sources_record(output),
    );
}

proof fn lemma_concatenation(a: Seq<u8>, b: Seq<u8>, c: Seq<u8>, d: Seq<u8>, e: Seq<u8>)
    ensures
        a + b + c + d + e == a + (b + (c + (d + e))),
{
    assert(a + b + c + d + e =~= a + (b + (c + (d + e))));
}

/// A section tells where it ends.
proof fn lemma_section_ends(a: Seq<u8>, rest_a: Seq<u8>, b: Seq<u8>, rest_b: Seq<u8>)
    requires
        a.len() <= u64::MAX,
        b.len() <= u64::MAX,
        section(a) + rest_a == section(b) + rest_b,
    ensures
        a == b,
        rest_a == rest_b,
{
    lemma_auto_spec_u64_to_from_le_bytes();
    let x = section(a) + rest_a;
    let y = section(b) + rest_b;
    let count_a = spec_u64_to_le_bytes(a.len() as u64);
    let count_b = spec_u64_to_le_bytes(b.len() as u64);
    assert(count_a =~= x.take(8));
    assert(count_b =~= y.take(8));
    assert(spec_u64_from_le_bytes(count_a) == a.len() as u64);
    assert(spec_u64_from_le_bytes(count_b) == b.len() as u64);
    assert(a.len() == b.len());
    assert(a =~= x.subrange(8, 8 + a.len() as int));
    assert(b =~= y.subrange(8, 8 + b.len() as int));
    assert(rest_a =~= x.skip(8 + a.len() as int));
    assert(rest_b =~= y.skip(8 + b.len() as int));
}

proof fn lemma_sources_record_injective(a: Seq<Source<Seq<u8>>>, b: Seq<Source<Seq<u8>>>)
    requires
        short_paths(a),
        short_paths(b),
        sources_record(a) == sources_record(b),
    ensures
        a == b,
    decreases a.len(),
{
    lemma_auto_spec_u64_to_from_le_bytes();
    if a.len() == 0 || b.len() == 0 {
        if a.len() > 0 {
            assert(source_record(a[0]).len() > 0);
        }
        if b.len() > 0 {
            assert(source_record(b[0]).len() > 0);
        }
        assert(a =~= b);
    } else {
        let file_a = source_record(a[0]).skip(8 + a[0].path.len() as int);
        let file_b = source_record(b[0]).skip(8 + b[0].path.len() as int);
        let rest_a = sources_record(a.drop_first());
        let rest_b = sources_record(b.drop_first());
        assert(source_record(a[0]) =~= section(a[0].path) + file_a);
        assert(source_record(b[0]) =~= section(b[0].path) + file_b);
        assert(sources_record(a) =~= section(a[0].path) + (file_a + rest_a));
        assert(sources_record(b) =~= section(b[0].path) + (file_b + rest_b));
        lemma_section_ends(a[0].path, file_a + rest_a, b[0].path, file_b + rest_b);
        let x = file_a + rest_a;
        let y = file_b + rest_b;
        assert(x[0] == file_a[0]);
        assert(y[0] == file_b[0]);
        match (a[0].file, b[0].file) {
            (Some(one), Some(other)) => {
                assert(spec_u64_to_le_bytes(one.len) =~= x.subrange(1, 9));
                assert(spec_u64_to_le_bytes(other.len) =~= y.subrange(1, 9));
                assert(spec_u64_to_le_bytes(one.modified) =~= x.subrange(9, 17));
                assert(spec_u64_to_le_bytes(other.modified) =~= y.subrange(9, 17));
                assert(spec_u64_from_le_bytes(x.subrange(1, 9)) == one.len);
                assert(spec_u64_from_le_bytes(x.subrange(9, 17)) == one.modified);
                assert(rest_a =~= x.skip(17));
                assert(rest_b =~= y.skip(17));
            },
            (None, None) => {
                assert(rest_a =~= x.skip(1));
                assert(rest_b =~= y.skip(1));
            },
            _ => {},
        }
        assert(a[0] == b[0]);
        lemma_sources_record_injective(a.drop_first(), b.drop_first());
        assert(a =~= seq![a[0]] + a.drop_first());
        assert(b =~= seq![b[0]] + b.drop_first());
    }
}

/// A build is done without if and only if its output is there and the stamp of the last build is just
/// the one that it would leave.
pub proof fn law_build_is_done_without(recorded: Option<Seq<u8>>, current: Seq<u8>, dist_exists: bool)
    ensures
        is_stale(recorded, current, false),
        is_stale(None, current, dist_exists),
        !is_stale(Some(current), current, true),
        recorded matches Some(stamp) && stamp != current ==> is_stale(recorded, current, dist_exists),
{
}

} // verus!
