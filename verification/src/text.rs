//! Text: building strings, numerals, and splitting a text into lines.

use vstd::prelude::*;

verus! {

/// A result with its texts taken as character sequences.
pub open spec fn outcome_view<T: DeepView, E: DeepView>(outcome: Result<T, E>) -> Result<T::V, E::V> {
    match outcome {
        Ok(value) => Ok(value.deep_view()),
        Err(error) => Err(error.deep_view()),
    }
}

/// The characters of a text.
pub(crate) fn chars_of(text: &str) -> (chars: Vec<char>)
    ensures
        chars@ == text@,
{
    let mut chars: Vec<char> = Vec::new();
    for c in it: text.chars()
        invariant
            it.seq() == text@,
            chars@ == text@.take(it.index() as int),
    {
        proof {
            assert(text@.take(it.index() + 1) =~= text@.take(it.index() as int).push(c));
        }
        chars.push(c);
    }
    assert(text@.take(text@.len() as int) =~= text@);
    chars
}

/// The text that is made of the characters from `from` up to `to`.
pub(crate) fn text_between(chars: &Vec<char>, from: usize, to: usize) -> (text: String)
    requires
        from <= to <= chars@.len(),
    ensures
        text@ == chars@.subrange(from as int, to as int),
{
    let mut text = String::new();
    let mut i: usize = from;
    while i < to
        invariant
            from <= i <= to <= chars@.len(),
            text@ == chars@.subrange(from as int, i as int),
        decreases to - i,
    {
        text.push(chars[i]);
        i = i + 1;
        assert(chars@.subrange(from as int, i as int) =~= chars@.subrange(
            from as int,
            i - 1,
        ).push(chars@[i - 1]));
    }
    text
}

/// Whether two texts are the same.
pub(crate) fn same_text(a: &str, b: &str) -> (same: bool)
    ensures
        same == (a@ == b@),
{
    a.to_owned() == b.to_owned()
}

/// Whether `part` stands in `whole` from position `at`.
pub(crate) fn stands_at(part: &Vec<char>, whole: &Vec<char>, at: usize) -> (yes: bool)
    requires
        at + part@.len() <= whole@.len(),
    ensures
        yes == (part@ == whole@.subrange(at as int, at + part@.len())),
{
    let mut i: usize = 0;
    while i < part.len()
        invariant
            i <= part@.len(),
            at + part@.len() <= whole.len(),
            forall|j: int| 0 <= j < i ==> part@[j] == whole@[at + j],
        decreases part.len() - i,
    {
        if part[i] != whole[at + i] {
            assert(whole@.subrange(at as int, at + part@.len())[i as int] == whole@[at + i]);
            return false;
        }
        i = i + 1;
    }
    assert(part@ =~= whole@.subrange(at as int, at + part@.len()));
    true
}

/// The numeral of a digit.
pub open spec fn digit(d: int) -> char {
    if d < 10 {
        (0x30 + d) as char
    } else {
        (0x57 + d) as char
    }
}

/// A natural number in decimal notation, without leading zeros.
pub open spec fn decimal_text(n: nat) -> Seq<char>
    decreases n,
{
    if n < 10 {
        seq![digit(n as int)]
    } else {
        decimal_text(n / 10).push(digit((n % 10) as int))
    }
}

/// A natural number in lower-case hexadecimal notation, of which the last `width` digits are kept
/// and which is filled up with zeros to that width.
pub open spec fn hex_text(n: nat, width: nat) -> Seq<char>
    decreases width,
{
    if width == 0 {
        seq![]
    } else {
        hex_text(n / 16, (width - 1) as nat).push(digit((n % 16) as int))
    }
}

/// The numeral of a digit.
fn digit_char(d: u8) -> (c: char)
    requires
        d < 16,
    ensures
        c == digit(d as int),
{
    if d < 10 {
        (0x30u8 + d) as char
    } else {
        (0x57u8 + d) as char
    }
}

/// `n` in decimal notation.
pub fn decimal(n: u16) -> (text: String)
    ensures
        text@ == decimal_text(n as nat),
    decreases n,
{
    let mut text = if n < 10 {
        String::new()
    } else {
        decimal(n / 10)
    };
    text.push(digit_char((n % 10) as u8));
    assert(n < 10 ==> text@ =~= seq![digit(n as int)]);
    text
}

/// The last `width` hexadecimal digits of `n`.
pub fn hex_digits(n: u64, width: u8) -> (text: String)
    ensures
        text@ == hex_text(n as nat, width as nat),
    decreases width,
{
    if width == 0 {
        let text = String::new();
        assert(text@ =~= seq![]);
        text
    } else {
        let mut text = hex_digits(n / 16, width - 1);
        text.push(digit_char((n % 16) as u8));
        text
    }
}

/// The position of the first line feed, or the length of the text where it has none.
pub open spec fn line_break(text: Seq<char>) -> int
    decreases text.len(),
{
    if text.len() == 0 || text[0] == '\n' {
        0
    } else {
        1 + line_break(text.drop_first())
    }
}

/// A line without the carriage return that may stand at its end.
pub open spec fn without_return(line: Seq<char>) -> Seq<char> {
    if line.len() > 0 && line.last() == '\r' {
        line.drop_last()
    } else {
        line
    }
}

/// The lines of a text, as `str::lines` gives them: each ends in a line feed, which may follow a
/// carriage return, or is the rest of the text.
pub open spec fn lines(text: Seq<char>) -> Seq<Seq<char>>
    decreases text.len(),
{
    if text.len() == 0 {
        seq![]
    } else if line_break(text) < text.len() {
        proof {
            lemma_line_break(text);
        }
        seq![without_return(text.take(line_break(text)))] + lines(text.skip(line_break(text) + 1))
    } else {
        seq![text]
    }
}

/// The first line feed stands at the line break, and none before it.
pub proof fn lemma_line_break(text: Seq<char>)
    ensures
        0 <= line_break(text) <= text.len(),
        line_break(text) < text.len() ==> text[line_break(text)] == '\n',
        forall|i: int| 0 <= i < line_break(text) ==> text[i] != '\n',
    decreases text.len(),
{
    if text.len() > 0 && text[0] != '\n' {
        lemma_line_break(text.drop_first());
        assert forall|i: int| 0 <= i < line_break(text) implies text[i] != '\n' by {
            if i > 0 {
                assert(text.drop_first()[i - 1] == text[i]);
            }
        }
    }
}

/// Where no line feed stands before position `k`, and one stands there or the text ends, that is
/// the line break.
pub proof fn lemma_line_break_at(text: Seq<char>, k: int)
    requires
        0 <= k <= text.len(),
        k < text.len() ==> text[k] == '\n',
        forall|i: int| 0 <= i < k ==> text[i] != '\n',
    ensures
        line_break(text) == k,
{
    lemma_line_break(text);
}

/// Texts as character sequences.
pub open spec fn texts(list: Seq<String>) -> Seq<Seq<char>> {
    list.map_values(|text: String| text@)
}

/// The lines of a text.
pub fn lines_of(text: &str) -> (list: Vec<String>)
    ensures
        texts(list@) == lines(text@),
{
    let chars = chars_of(text);
    let mut list: Vec<String> = Vec::new();
    // Where the current line starts, and how far it has been read.
    let mut start: usize = 0;
    let mut i: usize = 0;
    assert(chars@.skip(0) =~= text@);
    assert(texts(list@) + lines(text@) =~= lines(text@));
    while i < chars.len()
        invariant
            start <= i <= chars@.len(),
            chars@ == text@,
            forall|j: int| start <= j < i ==> chars@[j] != '\n',
            texts(list@) + lines(chars@.skip(start as int)) == lines(text@),
        decreases chars.len() - i,
    {
        if chars[i] == '\n' {
            let ghost rest = chars@.skip(start as int);
            proof {
                lemma_line_break_at(rest, i - start);
                assert(rest.take(i - start) =~= chars@.subrange(start as int, i as int));
                assert(rest.skip(i - start + 1) =~= chars@.skip(i + 1));
            }
            let ghost before = texts(list@);
            let line = if i > start && chars[i - 1] == '\r' {
                text_between(&chars, start, i - 1)
            } else {
                text_between(&chars, start, i)
            };
            assert(line@ =~= without_return(rest.take(i - start)));
            list.push(line);
            assert(texts(list@) =~= before.push(line@));
            start = i + 1;
            assert(texts(list@) + lines(chars@.skip(start as int)) =~= before + lines(rest));
        }
        i = i + 1;
    }
    let ghost rest = chars@.skip(start as int);
    let ghost before = texts(list@);
    if start < chars.len() {
        proof {
            lemma_line_break_at(rest, rest.len() as int);
        }
        let line = text_between(&chars, start, chars.len());
        assert(line@ =~= rest);
        list.push(line);
        assert(texts(list@) =~= before + lines(rest));
    } else {
        assert(texts(list@) =~= before + lines(rest));
    }
    list
}

/// What a digit counts, be it decimal or hexadecimal.
pub open spec fn digit_value(c: char) -> int {
    if '0' <= c <= '9' {
        c as int - '0' as int
    } else if 'a' <= c <= 'f' {
        10 + (c as int - 'a' as int)
    } else {
        -1
    }
}

/// The number that a numeral stands for.
pub open spec fn numeral_value(text: Seq<char>, base: int) -> int
    decreases text.len(),
{
    if text.len() == 0 {
        0
    } else {
        numeral_value(text.drop_last(), base) * base + digit_value(text.last())
    }
}

proof fn lemma_digit(d: int)
    requires
        0 <= d < 16,
    ensures
        digit_value(digit(d)) == d,
        d > 0 ==> digit(d) != '0',
{
}

/// A number in decimal notation stands for that number, and has no leading zero.
pub proof fn law_decimal_stands_for_its_number(n: nat)
    ensures
        numeral_value(decimal_text(n), 10) == n,
        forall|i: int|
            0 <= i < decimal_text(n).len() ==> 0 <= digit_value(#[trigger] decimal_text(n)[i]) < 10,
        decimal_text(n).len() > 0,
        n > 0 ==> decimal_text(n)[0] != '0',
        n == 0 ==> decimal_text(n) == "0"@,
    decreases n,
{
    let text = decimal_text(n);
    reveal_strlit("0");
    lemma_digit((n % 10) as int);
    if n < 10 {
        assert(text.drop_last() =~= seq![]);
        assert(numeral_value(text.drop_last(), 10) == 0);
        assert(n == 0 ==> text =~= "0"@);
    } else {
        law_decimal_stands_for_its_number(n / 10);
        assert(text.drop_last() =~= decimal_text(n / 10));
        assert forall|i: int| 0 <= i < text.len() implies 0 <= digit_value(#[trigger] text[i]) < 10 by {
            if i < text.len() - 1 {
                assert(text[i] == decimal_text(n / 10)[i]);
            }
        }
        assert(text[0] == decimal_text(n / 10)[0]);
    }
}

/// A number in hexadecimal notation has as many digits as asked for, all of them of `0` to `9` and `a`
/// to `f`, and stands for that number as far as they go.
pub proof fn law_hexadecimal_stands_for_its_number(n: nat, width: nat)
    ensures
        hex_text(n, width).len() == width,
        forall|i: int|
            0 <= i < width ==> 0 <= digit_value(#[trigger] hex_text(n, width)[i]) < 16,
        exists|dropped: int| #[trigger]
            (dropped * vstd::arithmetic::power::pow(16, width)) + numeral_value(
                hex_text(n, width),
                16,
            ) == n,
    decreases width,
{
    let text = hex_text(n, width);
    reveal(vstd::arithmetic::power::pow);
    if width == 0 {
        assert(numeral_value(text, 16) == 0);
        let p = vstd::arithmetic::power::pow(16, 0);
        assert(p == 1);
        assert(n as int * p == n) by (nonlinear_arith)
            requires
                p == 1,
        ;
        assert((n as int * p) + numeral_value(text, 16) == n);
    } else {
        let shorter = (width - 1) as nat;
        law_hexadecimal_stands_for_its_number(n / 16, shorter);
        lemma_digit((n % 16) as int);
        let front = hex_text(n / 16, shorter);
        assert(text.drop_last() =~= front);
        assert forall|i: int| 0 <= i < width implies 0 <= digit_value(#[trigger] text[i]) < 16 by {
            if i < width - 1 {
                assert(text[i] == front[i]);
            }
        }
        let p = vstd::arithmetic::power::pow(16, shorter);
        let dropped = choose|dropped: int| #[trigger] (dropped * p) + numeral_value(front, 16) == n / 16;
        assert(vstd::arithmetic::power::pow(16, width) == 16 * p);
        assert(dropped * (16 * p) == 16 * (dropped * p)) by (nonlinear_arith);
        assert(dropped * vstd::arithmetic::power::pow(16, width) + numeral_value(text, 16) == n);
    }
}

/// What is left of a line of a text: a carriage return before the line feed belongs to the end of the
/// line, one more before it does not.
pub proof fn law_lines_end_in_line_feeds(line: Seq<char>, rest: Seq<char>)
    requires
        !line.contains('\n'),
    ensures
        lines(line + seq!['\n'] + rest) == seq![
            if line.len() > 0 && line.last() == '\r' {
                line.drop_last()
            } else {
                line
            },
        ] + lines(rest),
        lines(line) == if line.len() > 0 {
            seq![line]
        } else {
            seq![]
        },
{
    let text = line + seq!['\n'] + rest;
    let k = line.len() as int;
    assert forall|i: int| 0 <= i < k implies text[i] != '\n' by {
        assert(text[i] == line[i]);
    }
    lemma_line_break_at(text, k);
    assert(text.take(k) =~= line);
    assert(text.skip(k + 1) =~= rest);
    lemma_line_break_at(line, k);
}

} // verus!
