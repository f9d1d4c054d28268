//! The toolchain: only a nightly compiler lets a macro declare the files that it depends on.

use vstd::prelude::*;
#[allow(unused_imports)]
use vstd::utf8::{decode_utf8, valid_utf8};

use crate::outside::utf8_text;
use crate::text::{chars_of, lines_of, stands_at};
#[allow(unused_imports)]
use crate::text::{lines, texts};

verus! {

/// Whether a character is white space, as Unicode has it.
pub open spec fn white_space(c: char) -> bool {
    ||| 0x9 <= c as u32 <= 0xd
    ||| c as u32 == 0x20
    ||| c as u32 == 0x85
    ||| c as u32 == 0xa0
    ||| c as u32 == 0x1680
    ||| 0x2000 <= c as u32 <= 0x200a
    ||| 0x2028 <= c as u32 <= 0x2029
    ||| c as u32 == 0x202f
    ||| c as u32 == 0x205f
    ||| c as u32 == 0x3000
}

/// A text without the white space at its end.
pub open spec fn trimmed_end(text: Seq<char>) -> Seq<char>
    decreases text.len(),
{
    if text.len() > 0 && white_space(text.last()) {
        trimmed_end(text.drop_last())
    } else {
        text
    }
}

/// A text without the white space at its start.
pub open spec fn trimmed_start(text: Seq<char>) -> Seq<char>
    decreases text.len(),
{
    if text.len() > 0 && white_space(text[0]) {
        trimmed_start(text.drop_first())
    } else {
        text
    }
}

/// What follows `release:` on the first line that starts so, if there is one.
pub open spec fn release(version: Seq<Seq<char>>) -> Option<Seq<char>>
    decreases version.len(),
{
    if version.len() == 0 {
        None
    } else if "release:"@.is_prefix_of(version[0]) {
        Some(version[0].skip("release:"@.len() as int))
    } else {
        release(version.drop_first())
    }
}

/// Whether a release is one of the nightly channel.
pub open spec fn on_nightly_channel(release: Seq<char>) -> bool {
    "-nightly"@.is_suffix_of(trimmed_start(trimmed_end(release)))
}

/// Whether a compiler that describes itself like this is a nightly one.
pub open spec fn describes_nightly(version: Seq<char>) -> bool {
    match release(lines(version)) {
        Some(release) => on_nightly_channel(release),
        None => false,
    }
}

/// Whether a character is white space.
pub fn is_white_space(c: char) -> (yes: bool)
    ensures
        yes == white_space(c),
{
    let code = c as u32;
    matches!(
        code,
        0x9..=0xd | 0x20 | 0x85 | 0xa0 | 0x1680 | 0x2000..=0x200a | 0x2028..=0x2029 | 0x202f | 0x205f
            | 0x3000
    )
}

/// Whether a release is one of the nightly channel. White space around it does not count.
fn ends_in_nightly(chars: &Vec<char>, from: usize) -> (yes: bool)
    requires
        from <= chars@.len(),
    ensures
        yes == on_nightly_channel(chars@.skip(from as int)),
{
    let ghost whole = chars@.skip(from as int);
    let mut to: usize = chars.len();
    assert(chars@.subrange(from as int, to as int) =~= whole);
    while to > from && is_white_space(chars[to - 1])
        invariant
            from <= to <= chars@.len(),
            trimmed_end(chars@.subrange(from as int, to as int)) == trimmed_end(whole),
        ensures
            to == from || !white_space(chars@[to - 1]),
        decreases to,
    {
        assert(chars@.subrange(from as int, to as int).drop_last() =~= chars@.subrange(
            from as int,
            to - 1,
        ));
        to = to - 1;
    }
    let ghost kept = chars@.subrange(from as int, to as int);
    assert(trimmed_end(whole) == kept);
    let mut start: usize = from;
    while start < to && is_white_space(chars[start])
        invariant
            from <= start <= to <= chars@.len(),
            trimmed_start(chars@.subrange(start as int, to as int)) == trimmed_start(kept),
        ensures
            start == to || !white_space(chars@[start as int]),
        decreases to - start,
    {
        assert(chars@.subrange(start as int, to as int).drop_first() =~= chars@.subrange(
            start + 1,
            to as int,
        ));
        start = start + 1;
    }
    let ghost trimmed = chars@.subrange(start as int, to as int);
    assert(trimmed_start(kept) == trimmed);
    let suffix = chars_of("-nightly");
    if suffix.len() > to - start {
        return false;
    }
    assert(trimmed.skip(trimmed.len() - suffix@.len()) =~= chars@.subrange(
        to - suffix@.len(),
        to as int,
    ));
    stands_at(&suffix, chars, to - suffix.len())
}

/// Whether the compiler that printed this on `rustc -vV` is of the nightly channel. A compiler of
/// another channel that was made to take unstable features is not.
pub fn is_nightly(stdout: &[u8]) -> (yes: bool)
    ensures
        yes == (valid_utf8(stdout@) && describes_nightly(decode_utf8(stdout@))),
{
    let version = match utf8_text(stdout) {
        Some(version) => version,
        None => {
            return false;
        },
    };
    let list = lines_of(version.as_str());
    let prefix = chars_of("release:");
    let mut i: usize = 0;
    assert(texts(list@).skip(0) =~= lines(version@));
    while i < list.len()
        invariant
            i <= list@.len(),
            prefix@ == "release:"@,
            valid_utf8(stdout@),
            version@ == decode_utf8(stdout@),
            texts(list@) == lines(version@),
            release(texts(list@).skip(i as int)) == release(lines(version@)),
        decreases list.len() - i,
    {
        let ghost rest = texts(list@).skip(i as int);
        let chars = chars_of(list[i].as_str());
        assert(rest[0] == chars@);
        assert(rest.drop_first() =~= texts(list@).skip(i + 1));
        if prefix.len() <= chars.len() && stands_at(&prefix, &chars, 0) {
            return ends_in_nightly(&chars, prefix.len());
        }
        i = i + 1;
    }
    false
}

/// Only the release tells: lines before it that do not start with `release:`, and any lines after
/// it, make no difference.
pub proof fn law_only_the_release_tells(
    before: Seq<Seq<char>>,
    line: Seq<char>,
    after: Seq<Seq<char>>,
)
    requires
        forall|i: int| 0 <= i < before.len() ==> !("release:"@.is_prefix_of(#[trigger] before[i])),
        "release:"@.is_prefix_of(line),
    ensures
        release(before + seq![line] + after) == Some(line.skip("release:"@.len() as int)),
    decreases before.len(),
{
    let all = before + seq![line] + after;
    if before.len() == 0 {
        assert(all[0] == line);
    } else {
        assert(all[0] == before[0]);
        assert(all.drop_first() =~= before.drop_first() + seq![line] + after);
        assert forall|i: int| 0 <= i < before.drop_first().len() implies !("release:"@.is_prefix_of(
            #[trigger] before.drop_first()[i],
        )) by {
            assert(before.drop_first()[i] == before[i + 1]);
        }
        law_only_the_release_tells(before.drop_first(), line, after);
    }
}

/// A release is of the nightly channel if and only if it ends in `-nightly`, white space around it
/// aside.
pub proof fn law_nightly_releases_end_so(before: Seq<char>, core: Seq<char>, after: Seq<char>)
    requires
        forall|i: int| 0 <= i < before.len() ==> white_space(#[trigger] before[i]),
        forall|i: int| 0 <= i < after.len() ==> white_space(#[trigger] after[i]),
        core.len() > 0 ==> !white_space(core[0]) && !white_space(core.last()),
    ensures
        on_nightly_channel(before + core + after) <==> core.len() >= 8 && core.skip(core.len() - 8)
            == "-nightly"@,
{
    reveal_strlit("-nightly");
    let whole = before + core;
    lemma_trimmed_end(whole, after);
    if core.len() > 0 {
        assert(whole.last() == core.last());
        assert(trimmed_end(whole) == whole);
        lemma_trimmed_start(before, core);
        assert(trimmed_start(core) == core);
    } else {
        assert(whole =~= Seq::<char>::empty() + before);
        lemma_trimmed_end(Seq::<char>::empty(), before);
        assert(trimmed_end(whole) == trimmed_end(Seq::<char>::empty()));
        assert(core =~= Seq::<char>::empty());
    }
    if core.len() >= 8 {
        assert(core.skip(core.len() - 8) =~= core.subrange(core.len() - 8, core.len() as int));
    }
}

proof fn lemma_trimmed_end(text: Seq<char>, space: Seq<char>)
    requires
        forall|i: int| 0 <= i < space.len() ==> white_space(#[trigger] space[i]),
    ensures
        trimmed_end(text + space) == trimmed_end(text),
    decreases space.len(),
{
    let whole = text + space;
    if space.len() == 0 {
        assert(whole =~= text);
    } else {
        assert(whole.last() == space[space.len() - 1]);
        assert(whole.drop_last() =~= text + space.drop_last());
        assert forall|i: int| 0 <= i < space.drop_last().len() implies white_space(
            #[trigger] space.drop_last()[i],
        ) by {
            assert(space.drop_last()[i] == space[i]);
        }
        lemma_trimmed_end(text, space.drop_last());
    }
}

proof fn lemma_trimmed_start(space: Seq<char>, text: Seq<char>)
    requires
        forall|i: int| 0 <= i < space.len() ==> white_space(#[trigger] space[i]),
    ensures
        trimmed_start(space + text) == trimmed_start(text),
    decreases space.len(),
{
    let whole = space + text;
    if space.len() == 0 {
        assert(whole =~= text);
    } else {
        assert(whole[0] == space[0]);
        assert(whole.drop_first() =~= space.drop_first() + text);
        assert forall|i: int| 0 <= i < space.drop_first().len() implies white_space(
            #[trigger] space.drop_first()[i],
        ) by {
            assert(space.drop_first()[i] == space[i + 1]);
        }
        lemma_trimmed_start(space.drop_first(), text);
    }
}

/// A compiler that names its release is of the channel of that release, whatever it says in lines
/// before that do not begin with `release:`, and after; one that names none is not nightly.
pub proof fn law_channel_goes_by_the_release(
    version: Seq<char>,
    before: Seq<Seq<char>>,
    named: Seq<char>,
    after: Seq<Seq<char>>,
)
    requires
        forall|i: int| 0 <= i < before.len() ==> !("release:"@.is_prefix_of(#[trigger] before[i])),
    ensures
        lines(version) == before + seq!["release:"@ + named] + after ==> (describes_nightly(version)
            <==> on_nightly_channel(named)),
        lines(version) == before ==> !describes_nightly(version),
{
    let line = "release:"@ + named;
    assert("release:"@ =~= line.subrange(0, "release:"@.len() as int));
    assert(line.skip("release:"@.len() as int) =~= named);
    law_only_the_release_tells(before, line, after);
    lemma_no_release(before);
}

proof fn lemma_no_release(list: Seq<Seq<char>>)
    requires
        forall|i: int| 0 <= i < list.len() ==> !("release:"@.is_prefix_of(#[trigger] list[i])),
    ensures
        release(list) is None,
    decreases list.len(),
{
    if list.len() > 0 {
        let rest = list.drop_first();
        assert(!("release:"@.is_prefix_of(list[0])));
        assert forall|i: int| 0 <= i < rest.len() implies !("release:"@.is_prefix_of(
            #[trigger] rest[i],
        )) by {
            assert(rest[i] == list[i + 1]);
        }
        lemma_no_release(rest);
    }
}

/// White space is a tab, a line feed, a vertical tab, a form feed, a carriage return, a blank, a next
/// line, or one of the spaces and separators of line and paragraph that Unicode counts among it; of these
/// a zero-width space or joiner is none.
pub proof fn law_white_space(c: char)
    ensures
        white_space(c) <==> seq![
            '\t', '\n', '\u{b}', '\u{c}', '\r', ' ', '\u{85}', '\u{a0}', '\u{1680}', '\u{2000}',
            '\u{2001}', '\u{2002}', '\u{2003}', '\u{2004}', '\u{2005}', '\u{2006}', '\u{2007}',
            '\u{2008}', '\u{2009}', '\u{200a}', '\u{2028}', '\u{2029}', '\u{202f}', '\u{205f}',
            '\u{3000}',
        ].contains(c),
        '\u{200b}' <= c <= '\u{200d}' ==> !white_space(c),
{
    let all = seq![
        '\t', '\n', '\u{b}', '\u{c}', '\r', ' ', '\u{85}', '\u{a0}', '\u{1680}', '\u{2000}', '\u{2001}',
        '\u{2002}', '\u{2003}', '\u{2004}', '\u{2005}', '\u{2006}', '\u{2007}', '\u{2008}', '\u{2009}',
        '\u{200a}', '\u{2028}', '\u{2029}', '\u{202f}', '\u{205f}', '\u{3000}',
    ];
    if white_space(c) {
        let code = c as u32;
        let i: int = if code <= 0xd {
            code - 0x9
        } else if code <= 0xa0 {
            if code == 0x20 {
                5
            } else if code == 0x85 {
                6
            } else {
                7
            }
        } else if code <= 0x200a {
            if code == 0x1680 {
                8
            } else {
                9 + code - 0x2000
            }
        } else if code <= 0x2029 {
            20 + code - 0x2028
        } else if code == 0x202f {
            22
        } else if code == 0x205f {
            23
        } else {
            24
        };
        assert(all[i] == c);
    }
}

} // verus!
