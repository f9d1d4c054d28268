//! Paths: a path is a text, or a sequence of bytes where it comes from a directory listing. What its
//! separators are, and how it begins, goes by the platform.

use vstd::prelude::*;

use crate::text::{chars_of, text_between};

verus! {

/// The platform whose paths are meant.
#[derive(Clone, Copy, Debug, PartialEq, Eq, Structural)]
pub enum PathStyle {
    Unix,
    Windows,
}

/// What a path is made of: characters, or bytes.
pub trait Unit: Copy {
    /// The number of a unit, which is that of ASCII where the unit is an ASCII character.
    spec fn spec_code(self) -> u32;

    /// The unit of an ASCII character.
    spec fn spec_ascii(c: u8) -> Self;

    fn code(self) -> (code: u32)
        ensures
            code == self.spec_code(),
    ;

    fn ascii(c: u8) -> (unit: Self)
        requires
            c < 0x80,
        ensures
            unit == Self::spec_ascii(c),
    ;

    proof fn lemma_ascii(c: u8)
        requires
            c < 0x80,
        ensures
            Self::spec_ascii(c).spec_code() == c,
    ;
}

impl Unit for u8 {
    open spec fn spec_code(self) -> u32 {
        self as u32
    }

    open spec fn spec_ascii(c: u8) -> u8 {
        c
    }

    fn code(self) -> (code: u32) {
        self as u32
    }

    fn ascii(c: u8) -> (unit: u8) {
        c
    }

    proof fn lemma_ascii(c: u8) {
    }
}

impl Unit for char {
    open spec fn spec_code(self) -> u32 {
        self as u32
    }

    open spec fn spec_ascii(c: u8) -> char {
        c as char
    }

    fn code(self) -> (code: u32) {
        self as u32
    }

    fn ascii(c: u8) -> (unit: char) {
        c as char
    }

    proof fn lemma_ascii(c: u8) {
    }
}

/// How a Windows path may begin. Of a disk it holds the letter in upper case.
#[derive(Debug, PartialEq, Eq)]
pub enum Prefix<Piece> {
    /// `\\?\piece`
    Verbatim(Piece),
    /// `\\?\UNC\server\share`
    VerbatimUnc(Piece, Piece),
    /// `\\?\C:`
    VerbatimDisk(u32),
    /// `\\.\device`
    Device(Piece),
    /// `\\server\share`
    Unc(Piece, Piece),
    /// `C:`
    Disk(u32),
}

/// A component of a path.
#[derive(Debug, PartialEq, Eq)]
pub enum Component<Piece> {
    Prefix(Prefix<Piece>),
    Root,
    Name(Piece),
}

/// Whether a unit separates the components of a path.
pub open spec fn is_separator<T: Unit>(c: T, style: PathStyle) -> bool {
    c.spec_code() == 0x2f || (style is Windows && c.spec_code() == 0x5c)
}

/// The separator that is put between components.
pub open spec fn separator<T: Unit>(style: PathStyle) -> T {
    match style {
        PathStyle::Unix => T::spec_ascii(0x2f),
        PathStyle::Windows => T::spec_ascii(0x5c),
    }
}

/// Whether a unit separates the names of a path: behind a verbatim prefix, only the backslash does.
pub open spec fn splits<T: Unit>(c: T, style: PathStyle, verbatim: bool) -> bool {
    if verbatim {
        c.spec_code() == 0x5c
    } else {
        is_separator(c, style)
    }
}

/// Whether a path begins with these ASCII characters.
pub open spec fn begins<T: Unit>(path: Seq<T>, with: Seq<u32>) -> bool {
    path.len() >= with.len() && forall|i: int|
        0 <= i < with.len() ==> (#[trigger] path[i]).spec_code() == with[i]
}

/// The position of the first separator, or the length of the path where it has none.
pub open spec fn first_separator<T: Unit>(path: Seq<T>, style: PathStyle, verbatim: bool) -> int
    decreases path.len(),
{
    if path.len() == 0 || splits(path[0], style, verbatim) {
        0
    } else {
        1 + first_separator(path.drop_first(), style, verbatim)
    }
}

/// What stands before the first separator.
pub open spec fn first_piece<T: Unit>(path: Seq<T>, verbatim: bool) -> Seq<T> {
    path.take(first_separator(path, PathStyle::Windows, verbatim))
}

/// What stands behind the first separator.
pub open spec fn after_piece<T: Unit>(path: Seq<T>, verbatim: bool) -> Seq<T> {
    let k = first_separator(path, PathStyle::Windows, verbatim);
    if k < path.len() {
        path.skip(k + 1)
    } else {
        seq![]
    }
}

/// Whether a number is that of an ASCII letter.
pub open spec fn is_letter(code: u32) -> bool {
    0x41 <= code <= 0x5a || 0x61 <= code <= 0x7a
}

/// The number of a letter in upper case.
pub open spec fn upper(code: u32) -> u32 {
    if 0x61 <= code {
        (code - 0x20) as u32
    } else {
        code
    }
}

/// Whether a path begins with a drive letter and a colon.
pub open spec fn begins_with_drive<T: Unit>(path: Seq<T>) -> bool {
    path.len() >= 2 && is_letter(path[0].spec_code()) && path[1].spec_code() == 0x3a
}

/// The prefix of a path that goes on like this behind `\\?\`.
pub open spec fn verbatim_prefix<T: Unit>(rest: Seq<T>) -> Prefix<Seq<T>> {
    if begins(rest, seq![0x55u32, 0x4eu32, 0x43u32, 0x5cu32]) {
        Prefix::VerbatimUnc(
            first_piece(rest.skip(4), true),
            first_piece(after_piece(rest.skip(4), true), true),
        )
    } else if begins_with_drive(rest) && (rest.len() == 2 || is_separator(
        rest[2],
        PathStyle::Windows,
    )) {
        Prefix::VerbatimDisk(upper(rest[0].spec_code()))
    } else {
        Prefix::Verbatim(first_piece(rest, true))
    }
}

/// Whether a path begins with `\\?\`, and with nothing else that would be read alike.
pub open spec fn begins_verbatim<T: Unit>(path: Seq<T>) -> bool {
    begins(path, seq![0x5cu32, 0x5cu32, 0x3fu32, 0x5cu32])
}

/// Whether a path begins with two separators, a dot and another separator.
pub open spec fn begins_with_device<T: Unit>(path: Seq<T>) -> bool {
    path.len() >= 4 && path[2].spec_code() == 0x2e && is_separator(path[3], PathStyle::Windows)
}

/// The prefix of a path, if it has one. On Unix, none has.
pub open spec fn prefix_of<T: Unit>(path: Seq<T>, style: PathStyle) -> Option<Prefix<Seq<T>>> {
    if style is Unix {
        None
    } else if path.len() >= 2 && is_separator(path[0], style) && is_separator(path[1], style) {
        let server = first_piece(path.skip(2), false);
        let share = first_piece(after_piece(path.skip(2), false), false);
        if begins_verbatim(path) {
            Some(verbatim_prefix(path.skip(4)))
        } else if begins_with_device(path) {
            Some(Prefix::Device(first_piece(path.skip(4), false)))
        } else if server.len() > 0 && share.len() > 0 {
            Some(Prefix::Unc(server, share))
        } else {
            None
        }
    } else if begins_with_drive(path) {
        Some(Prefix::Disk(upper(path[0].spec_code())))
    } else {
        None
    }
}

/// The number of units that a prefix takes.
pub open spec fn prefix_len<T>(prefix: Option<Prefix<Seq<T>>>) -> int {
    match prefix {
        None => 0,
        Some(Prefix::Verbatim(piece)) => 4 + piece.len() as int,
        Some(Prefix::VerbatimUnc(server, share)) => if share.len() > 0 {
            9 + server.len() + share.len() as int
        } else {
            8 + server.len() as int
        },
        Some(Prefix::VerbatimDisk(_)) => 6,
        Some(Prefix::Device(device)) => 4 + device.len() as int,
        Some(Prefix::Unc(server, share)) => 3 + server.len() + share.len() as int,
        Some(Prefix::Disk(_)) => 2,
    }
}

/// Whether a prefix is a verbatim one: what follows it is taken as it stands.
pub open spec fn is_verbatim<T>(prefix: Option<Prefix<Seq<T>>>) -> bool {
    match prefix {
        Some(Prefix::Verbatim(_)) => true,
        Some(Prefix::VerbatimUnc(_, _)) => true,
        Some(Prefix::VerbatimDisk(_)) => true,
        _ => false,
    }
}

/// What follows the prefix of a path.
pub open spec fn after_prefix<T: Unit>(path: Seq<T>, style: PathStyle) -> Seq<T> {
    path.skip(prefix_len(prefix_of(path, style)))
}

/// Whether a separator stands at the start of a path or behind its prefix.
pub open spec fn is_rooted<T: Unit>(path: Seq<T>, style: PathStyle) -> bool {
    let rest = after_prefix(path, style);
    rest.len() > 0 && is_separator(rest[0], style)
}

/// What follows the prefix and the root of a path.
pub open spec fn body<T: Unit>(path: Seq<T>, style: PathStyle) -> Seq<T> {
    if is_rooted(path, style) {
        after_prefix(path, style).skip(1)
    } else {
        after_prefix(path, style)
    }
}

/// Whether a piece is `.`.
pub open spec fn is_dot<T: Unit>(piece: Seq<T>) -> bool {
    piece.len() == 1 && piece[0].spec_code() == 0x2e
}

/// Whether a piece is `..`.
pub open spec fn is_dot_dot<T: Unit>(piece: Seq<T>) -> bool {
    piece.len() == 2 && piece[0].spec_code() == 0x2e && piece[1].spec_code() == 0x2e
}

/// The position of the last separator, or -1.
pub open spec fn last_separator<T: Unit>(path: Seq<T>, style: PathStyle, verbatim: bool) -> int
    decreases path.len(),
{
    if path.len() == 0 {
        -1
    } else if splits(path.last(), style, verbatim) {
        path.len() - 1
    } else {
        last_separator(path.drop_last(), style, verbatim)
    }
}

/// What the units between two separators, or behind the last, add to the names: nothing where there
/// are none, or where they are `.`, which counts only behind a verbatim prefix.
pub open spec fn kept<T: Unit>(piece: Seq<T>, verbatim: bool) -> Seq<Seq<T>> {
    if piece.len() == 0 || (!verbatim && is_dot(piece)) {
        seq![]
    } else {
        seq![piece]
    }
}

/// The names between the separators.
pub open spec fn names<T: Unit>(path: Seq<T>, style: PathStyle, verbatim: bool) -> Seq<Seq<T>>
    decreases path.len(),
{
    let k = last_separator(path, style, verbatim);
    if k < 0 {
        kept(path, verbatim)
    } else {
        proof {
            lemma_last_separator_within(path, style, verbatim);
        }
        names(path.take(k), style, verbatim) + kept(path.skip(k + 1), verbatim)
    }
}

/// Whether a path has neither prefix nor root and begins with `.` as a name of its own.
pub open spec fn begins_with_dot<T: Unit>(path: Seq<T>, style: PathStyle) -> bool {
    &&& prefix_of(path, style) is None
    &&& path.len() > 0
    &&& path[0].spec_code() == 0x2e
    &&& path.len() == 1 || is_separator(path[1], style)
}

/// Whether the components of a path include the root: it is there, or implied by the prefix of a share
/// or a device.
pub open spec fn has_root<T: Unit>(path: Seq<T>, style: PathStyle) -> bool {
    is_rooted(path, style) || (match prefix_of(path, style) {
        Some(Prefix::Device(_)) => true,
        Some(Prefix::Unc(_, _)) => true,
        _ => false,
    })
}

/// What stands in a path before its names: the prefix, the root, or a `.`.
pub open spec fn lead<T: Unit>(path: Seq<T>, style: PathStyle) -> Seq<Component<Seq<T>>> {
    (match prefix_of(path, style) {
        Some(prefix) => seq![Component::Prefix(prefix)],
        None => seq![],
    }) + (if has_root(path, style) {
        seq![Component::<Seq<T>>::Root]
    } else if begins_with_dot(path, style) {
        seq![Component::Name(path.take(1))]
    } else {
        seq![]
    })
}

/// Names as components.
pub open spec fn as_components<T>(names: Seq<Seq<T>>) -> Seq<Component<Seq<T>>> {
    names.map_values(|name: Seq<T>| Component::Name(name))
}

/// The components of a path, as `Path::components` gives them: the prefix and the root where it has
/// them, then the names in it. Repeated and trailing separators make none, and neither does `.`, but
/// at the start of a relative path and behind a verbatim prefix.
#[verifier::opaque]
pub open spec fn components<T: Unit>(path: Seq<T>, style: PathStyle) -> Seq<Component<Seq<T>>> {
    lead(path, style) + as_components(
        names(body(path, style), style, is_verbatim(prefix_of(path, style))),
    )
}

/// Names with one more behind them: `..` takes the last one away, unless that is `.` or `..` itself.
pub open spec fn with_name<T: Unit>(list: Seq<Seq<T>>, name: Seq<T>) -> Seq<Seq<T>> {
    if !is_dot_dot(name) {
        list.push(name)
    } else if list.len() > 0 && !is_dot(list.last()) && !is_dot_dot(list.last()) {
        list.drop_last()
    } else {
        list
    }
}

/// Names with more of them behind them, one after the other.
pub open spec fn with_names<T: Unit>(list: Seq<Seq<T>>, more: Seq<Seq<T>>) -> Seq<Seq<T>>
    decreases more.len(),
{
    if more.len() == 0 {
        list
    } else {
        with_name(with_names(list, more.drop_last()), more.last())
    }
}

/// Names, each behind a backslash.
pub open spec fn written_names<T: Unit>(list: Seq<Seq<T>>) -> Seq<T>
    decreases list.len(),
{
    if list.len() == 0 {
        seq![]
    } else {
        written_names(list.drop_last()).push(separator(PathStyle::Windows)) + list.last()
    }
}

/// A path without prefix joined to a base with a verbatim one, where `.` and `..` would be taken as
/// they stand: they are resolved, and all is written anew.
pub open spec fn verbatim_joined<T: Unit>(base: Seq<T>, path: Seq<T>) -> Seq<T> {
    let style = PathStyle::Windows;
    let before = if is_rooted(path, style) {
        seq![]
    } else {
        names(body(base, style), style, true)
    };
    let list = with_names(before, names(body(path, style), style, false));
    let prefix = base.take(prefix_len(prefix_of(base, style)));
    if list.len() > 0 {
        prefix + written_names(list)
    } else if is_rooted(base, style) || is_rooted(path, style) {
        prefix.push(separator(style))
    } else {
        prefix
    }
}

/// A path joined to a base as Windows has it: one with a prefix stands for itself; one that has only a
/// root replaces all but the prefix of the base; any other is put behind the base and a separator,
/// unless the base already ends in one, is empty, or is a drive and nothing more. To a verbatim base it
/// is joined name by name.
pub open spec fn windows_joined<T: Unit>(base: Seq<T>, path: Seq<T>) -> Seq<T> {
    let style = PathStyle::Windows;
    let prefix = prefix_of(base, style);
    if prefix_of(path, style) is Some {
        path
    } else if is_verbatim(prefix) && path.len() > 0 {
        verbatim_joined(base, path)
    } else if path.len() > 0 && is_separator(path[0], style) {
        base.take(prefix_len(prefix)) + path
    } else if base.len() > 0 && !is_separator(base.last(), style) && !(prefix matches Some(
        Prefix::Disk(_),
    ) && base.len() == 2) {
        base.push(separator(style)) + path
    } else {
        base + path
    }
}

/// A path joined to a base, as `Path::join` does it. On Unix an absolute path stands for itself, and
/// any other is put behind the base and a separator, unless the base already ends in one or is empty.
pub open spec fn joined<T: Unit>(base: Seq<T>, path: Seq<T>, style: PathStyle) -> Seq<T> {
    match style {
        PathStyle::Unix => if path.len() > 0 && is_separator(path[0], style) {
            path
        } else if base.len() > 0 && !is_separator(base.last(), style) {
            base.push(separator(style)) + path
        } else {
            base + path
        },
        PathStyle::Windows => windows_joined(base, path),
    }
}

/// Whether `base` is `path` or one of the directories that lead to it, by their components.
pub open spec fn starts_with(path: Seq<u8>, base: Seq<u8>, style: PathStyle) -> bool {
    components(base, style).is_prefix_of(components(path, style))
}

/// Whether two paths have the same components.
pub open spec fn same_path(a: Seq<u8>, b: Seq<u8>, style: PathStyle) -> bool {
    components(a, style) == components(b, style)
}

/// Strings of units as sequences.
pub open spec fn unit_strings<T>(list: Seq<Vec<T>>) -> Seq<Seq<T>> {
    list.map_values(|units: Vec<T>| units@)
}

/// A prefix with its pieces taken as sequences.
pub open spec fn prefix_view<T>(prefix: Prefix<Vec<T>>) -> Prefix<Seq<T>> {
    match prefix {
        Prefix::Verbatim(piece) => Prefix::Verbatim(piece@),
        Prefix::VerbatimUnc(server, share) => Prefix::VerbatimUnc(server@, share@),
        Prefix::VerbatimDisk(letter) => Prefix::VerbatimDisk(letter),
        Prefix::Device(device) => Prefix::Device(device@),
        Prefix::Unc(server, share) => Prefix::Unc(server@, share@),
        Prefix::Disk(letter) => Prefix::Disk(letter),
    }
}

/// A component with its pieces taken as sequences.
pub open spec fn component_view<T>(component: Component<Vec<T>>) -> Component<Seq<T>> {
    match component {
        Component::Prefix(prefix) => Component::Prefix(prefix_view(prefix)),
        Component::Root => Component::Root,
        Component::Name(name) => Component::Name(name@),
    }
}

/// Components with their pieces taken as sequences.
pub open spec fn component_views<T>(list: Seq<Component<Vec<T>>>) -> Seq<Component<Seq<T>>> {
    list.map_values(|component: Component<Vec<T>>| component_view(component))
}

/// A separator stands within the path.
pub proof fn lemma_last_separator_within<T: Unit>(path: Seq<T>, style: PathStyle, verbatim: bool)
    ensures
        -1 <= last_separator(path, style, verbatim) < path.len(),
    decreases path.len(),
{
    if path.len() > 0 && !splits(path.last(), style, verbatim) {
        lemma_last_separator_within(path.drop_last(), style, verbatim);
    }
}

pub proof fn lemma_last_separator_at<T: Unit>(path: Seq<T>, style: PathStyle, verbatim: bool, k: int)
    requires
        -1 <= k < path.len(),
        k >= 0 ==> splits(path[k], style, verbatim),
        forall|i: int| k < i < path.len() ==> !splits(#[trigger] path[i], style, verbatim),
    ensures
        last_separator(path, style, verbatim) == k,
    decreases path.len(),
{
    if path.len() > 0 && !splits(path.last(), style, verbatim) {
        lemma_last_separator_at(path.drop_last(), style, verbatim, k);
    }
}

pub proof fn lemma_first_separator<T: Unit>(path: Seq<T>, style: PathStyle, verbatim: bool)
    ensures
        0 <= first_separator(path, style, verbatim) <= path.len(),
        first_separator(path, style, verbatim) < path.len() ==> splits(
            path[first_separator(path, style, verbatim)],
            style,
            verbatim,
        ),
        forall|i: int|
            0 <= i < first_separator(path, style, verbatim) ==> !splits(
                #[trigger] path[i],
                style,
                verbatim,
            ),
    decreases path.len(),
{
    if path.len() > 0 && !splits(path[0], style, verbatim) {
        let rest = path.drop_first();
        lemma_first_separator(rest, style, verbatim);
        assert forall|i: int| 0 <= i < first_separator(path, style, verbatim) implies !splits(
            #[trigger] path[i],
            style,
            verbatim,
        ) by {
            if i > 0 {
                assert(rest[i - 1] == path[i]);
            }
        }
    }
}

pub proof fn lemma_first_separator_at<T: Unit>(path: Seq<T>, style: PathStyle, verbatim: bool, k: int)
    requires
        0 <= k <= path.len(),
        k < path.len() ==> splits(path[k], style, verbatim),
        forall|i: int| 0 <= i < k ==> !splits(#[trigger] path[i], style, verbatim),
    ensures
        first_separator(path, style, verbatim) == k,
{
    lemma_first_separator(path, style, verbatim);
}

/// The position of the first separator from `from` on, or the length of the path.
fn find_separator<T: Unit>(path: &Vec<T>, from: usize, verbatim: bool) -> (at: usize)
    requires
        from <= path@.len(),
    ensures
        at == from + first_separator(path@.skip(from as int), PathStyle::Windows, verbatim),
        from <= at <= path@.len(),
{
    let mut at: usize = from;
    while at < path.len() && !splits_here(path[at], PathStyle::Windows, verbatim)
        invariant
            from <= at <= path@.len(),
            forall|i: int|
                from <= i < at ==> !splits(#[trigger] path@[i], PathStyle::Windows, verbatim),
        ensures
            at < path@.len() ==> splits(path@[at as int], PathStyle::Windows, verbatim),
        decreases path.len() - at,
    {
        at = at + 1;
    }
    proof {
        lemma_first_separator_at(
            path@.skip(from as int),
            PathStyle::Windows,
            verbatim,
            at - from,
        );
    }
    at
}

fn is_separator_here<T: Unit>(c: T, style: PathStyle) -> (yes: bool)
    ensures
        yes == is_separator(c, style),
{
    match style {
        PathStyle::Unix => c.code() == 0x2f,
        PathStyle::Windows => c.code() == 0x2f || c.code() == 0x5c,
    }
}

fn splits_here<T: Unit>(c: T, style: PathStyle, verbatim: bool) -> (yes: bool)
    ensures
        yes == splits(c, style, verbatim),
{
    if verbatim {
        c.code() == 0x5c
    } else {
        is_separator_here(c, style)
    }
}

fn separator_of<T: Unit>(style: PathStyle) -> (unit: T)
    ensures
        unit == separator::<T>(style),
{
    match style {
        PathStyle::Unix => T::ascii(0x2f),
        PathStyle::Windows => T::ascii(0x5c),
    }
}

/// The units from `from` up to `to`.
fn units_between<T: Unit>(path: &Vec<T>, from: usize, to: usize) -> (units: Vec<T>)
    requires
        from <= to <= path@.len(),
    ensures
        units@ == path@.subrange(from as int, to as int),
{
    let mut units: Vec<T> = Vec::new();
    let mut i: usize = from;
    while i < to
        invariant
            from <= i <= to <= path@.len(),
            units@ == path@.subrange(from as int, i as int),
        decreases to - i,
    {
        units.push(path[i]);
        i = i + 1;
        assert(path@.subrange(from as int, i as int) =~= path@.subrange(from as int, i - 1).push(
            path@[i - 1],
        ));
    }
    units
}

/// Whether the ASCII characters `with` stand in a path from `at` on.
fn begins_here<T: Unit>(path: &Vec<T>, at: usize, with: [u32; 4]) -> (yes: bool)
    requires
        at <= path@.len(),
    ensures
        yes == begins(path@.skip(at as int), with@),
{
    let ghost rest = path@.skip(at as int);
    if path.len() - at < 4 {
        return false;
    }
    assert forall|i: int| 0 <= i < 4 implies rest[i] == path@[at + i] by {}
    assert(rest[0] == path@[at as int] && rest[1] == path@[at + 1] && rest[2] == path@[at + 2]
        && rest[3] == path@[at + 3]);
    path[at].code() == with[0] && path[at + 1].code() == with[1] && path[at + 2].code() == with[2]
        && path[at + 3].code() == with[3]
}

fn is_letter_here(code: u32) -> (yes: bool)
    ensures
        yes == is_letter(code),
{
    (0x41 <= code && code <= 0x5a) || (0x61 <= code && code <= 0x7a)
}

fn upper_of(code: u32) -> (letter: u32)
    ensures
        letter == upper(code),
{
    if 0x61 <= code {
        code - 0x20
    } else {
        code
    }
}

/// Whether a drive letter and a colon stand in a path from `at` on.
fn drive_here<T: Unit>(path: &Vec<T>, at: usize) -> (yes: bool)
    requires
        at <= path@.len(),
    ensures
        yes == begins_with_drive(path@.skip(at as int)),
{
    path.len() - at >= 2 && is_letter_here(path[at].code()) && path[at + 1].code() == 0x3a
}

/// The prefix of a path that begins with `\\?\`, and its length.
fn parse_verbatim<T: Unit>(path: &Vec<T>) -> (parsed: (Prefix<Vec<T>>, usize))
    requires
        path@.len() >= 4,
    ensures
        prefix_view(parsed.0) == verbatim_prefix(path@.skip(4)),
        parsed.1 == prefix_len(Some(verbatim_prefix(path@.skip(4)))),
        parsed.1 <= path@.len(),
{
    let ghost rest = path@.skip(4);
    if begins_here(path, 4, [0x55, 0x4e, 0x43, 0x5c]) {
        assert(rest.skip(4) =~= path@.skip(8));
        let first = find_separator(path, 8, true);
        let server = units_between(path, 8, first);
        assert(server@ =~= first_piece(rest.skip(4), true));
        if first < path.len() {
            assert(after_piece(rest.skip(4), true) =~= path@.skip(first + 1));
            let second = find_separator(path, first + 1, true);
            let share = units_between(path, first + 1, second);
            assert(share@ =~= first_piece(path@.skip(first + 1), true));
            let len = if second > first + 1 {
                second
            } else {
                first
            };
            return (Prefix::VerbatimUnc(server, share), len);
        }
        let share: Vec<T> = Vec::new();
        assert(share@ =~= first_piece(after_piece(rest.skip(4), true), true));
        return (Prefix::VerbatimUnc(server, share), first);
    }
    if drive_here(path, 4) {
        assert(rest[0] == path@[4]);
        if path.len() == 6 || is_separator_here(path[6], PathStyle::Windows) {
            assert(path@.len() > 6 ==> rest[2] == path@[6]);
            return (Prefix::VerbatimDisk(upper_of(path[4].code())), 6);
        }
        assert(rest[2] == path@[6]);
    }
    let first = find_separator(path, 4, true);
    let piece = units_between(path, 4, first);
    assert(piece@ =~= first_piece(rest, true));
    (Prefix::Verbatim(piece), first)
}

/// The prefix of a path with its pieces taken as sequences, where there is one.
pub open spec fn parsed_view<T>(prefix: Option<Prefix<Vec<T>>>) -> Option<Prefix<Seq<T>>> {
    match prefix {
        Some(prefix) => Some(prefix_view(prefix)),
        None => None,
    }
}

/// The prefix of a path, and its length.
fn parse_prefix<T: Unit>(path: &Vec<T>, style: PathStyle) -> (parsed: (
    Option<Prefix<Vec<T>>>,
    usize,
))
    ensures
        parsed_view(parsed.0) == prefix_of(path@, style),
        parsed.1 == prefix_len(prefix_of(path@, style)),
        parsed.1 <= path@.len(),
{
    if style == PathStyle::Unix || path.len() < 2 {
        return (None, 0);
    }
    assert(path@.skip(0) =~= path@);
    if is_separator_here(path[0], style) && is_separator_here(path[1], style) {
        if begins_here(path, 0, [0x5c, 0x5c, 0x3f, 0x5c]) {
            let (prefix, len) = parse_verbatim(path);
            return (Some(prefix), len);
        }
        if path.len() >= 4 && path[2].code() == 0x2e && is_separator_here(path[3], style) {
            let first = find_separator(path, 4, false);
            let device = units_between(path, 4, first);
            assert(device@ =~= first_piece(path@.skip(4), false));
            return (Some(Prefix::Device(device)), first);
        }
        let first = find_separator(path, 2, false);
        let server = units_between(path, 2, first);
        assert(server@ =~= first_piece(path@.skip(2), false));
        if first == 2 || first == path.len() {
            assert(first == path@.len() ==> after_piece(path@.skip(2), false) =~= seq![]);
            return (None, 0);
        }
        assert(after_piece(path@.skip(2), false) =~= path@.skip(first + 1));
        let second = find_separator(path, first + 1, false);
        let share = units_between(path, first + 1, second);
        assert(share@ =~= first_piece(path@.skip(first + 1), false));
        if second == first + 1 {
            return (None, 0);
        }
        return (Some(Prefix::Unc(server, share)), second);
    }
    if drive_here(path, 0) {
        return (Some(Prefix::Disk(upper_of(path[0].code()))), 2);
    }
    (None, 0)
}

fn verbatim_here<T>(prefix: &Option<Prefix<Vec<T>>>) -> (yes: bool)
    ensures
        yes == is_verbatim(parsed_view(*prefix)),
{
    match prefix {
        Some(Prefix::Verbatim(_)) => true,
        Some(Prefix::VerbatimUnc(_, _)) => true,
        Some(Prefix::VerbatimDisk(_)) => true,
        _ => false,
    }
}

fn is_dot_here<T: Unit>(piece: &Vec<T>) -> (yes: bool)
    ensures
        yes == is_dot(piece@),
{
    piece.len() == 1 && piece[0].code() == 0x2e
}

fn is_dot_dot_here<T: Unit>(piece: &Vec<T>) -> (yes: bool)
    ensures
        yes == is_dot_dot(piece@),
{
    piece.len() == 2 && piece[0].code() == 0x2e && piece[1].code() == 0x2e
}

/// Adds what a piece adds to the names.
fn keep_piece<T: Unit>(piece: Vec<T>, verbatim: bool, out: &mut Vec<Vec<T>>)
    ensures
        unit_strings(final(out)@) == unit_strings(old(out)@) + kept(piece@, verbatim),
{
    if piece.len() == 0 || (!verbatim && is_dot_here(&piece)) {
        assert(unit_strings(out@) =~= unit_strings(old(out)@) + kept(piece@, verbatim));
    } else {
        out.push(piece);
        assert(unit_strings(out@) =~= unit_strings(old(out)@) + kept(piece@, verbatim));
    }
}

/// The names between the separators of a path from `from` on.
fn split_names<T: Unit>(path: &Vec<T>, from: usize, style: PathStyle, verbatim: bool) -> (list: Vec<
    Vec<T>,
>)
    requires
        from <= path@.len(),
    ensures
        unit_strings(list@) == names(path@.skip(from as int), style, verbatim),
{
    let ghost whole = path@.skip(from as int);
    let mut list: Vec<Vec<T>> = Vec::new();
    // The position behind the last separator before `i`.
    let mut start: usize = from;
    let mut i: usize = from;
    assert(unit_strings(list@) =~= seq![]);
    while i < path.len()
        invariant
            from <= start <= i <= path@.len(),
            whole == path@.skip(from as int),
            forall|j: int| start <= j < i ==> !splits(#[trigger] path@[j], style, verbatim),
            start == from ==> unit_strings(list@) == Seq::<Seq<T>>::empty(),
            start > from ==> splits(path@[start - 1], style, verbatim) && unit_strings(list@)
                == names(whole.take(start - 1 - from), style, verbatim),
        decreases path.len() - i,
    {
        if splits_here(path[i], style, verbatim) {
            let ghost before = whole.take(i - from);
            proof {
                lemma_pieces(path@, from as int, start as int, i as int, style, verbatim);
            }
            keep_piece(units_between(path, start, i), verbatim, &mut list);
            assert(unit_strings(list@) =~= names(before, style, verbatim));
            start = i + 1;
        }
        i = i + 1;
    }
    proof {
        lemma_pieces(path@, from as int, start as int, path@.len() as int, style, verbatim);
        assert(whole.take(path@.len() - from) =~= whole);
    }
    keep_piece(units_between(path, start, path.len()), verbatim, &mut list);
    assert(unit_strings(list@) =~= names(whole, style, verbatim));
    list
}

/// The names of a stretch of a path are those up to its last separator, and what follows that.
proof fn lemma_pieces<T: Unit>(
    path: Seq<T>,
    from: int,
    start: int,
    to: int,
    style: PathStyle,
    verbatim: bool,
)
    requires
        0 <= from <= start <= to <= path.len(),
        start > from ==> splits(path[start - 1], style, verbatim),
        forall|j: int| start <= j < to ==> !splits(#[trigger] path[j], style, verbatim),
    ensures
        names(path.skip(from).take(to - from), style, verbatim) == (if start == from {
            Seq::<Seq<T>>::empty()
        } else {
            names(path.skip(from).take(start - 1 - from), style, verbatim)
        }) + kept(path.subrange(start, to), verbatim),
{
    let stretch = path.skip(from).take(to - from);
    let k = start - 1 - from;
    lemma_last_separator_at(stretch, style, verbatim, k);
    if start == from {
        assert(stretch =~= path.subrange(start, to));
        assert(names(stretch, style, verbatim) =~= Seq::<Seq<T>>::empty() + kept(
            path.subrange(start, to),
            verbatim,
        ));
    } else {
        assert(stretch.take(k) =~= path.skip(from).take(k));
        assert(stretch.skip(k + 1) =~= path.subrange(start, to));
    }
}

/// Names with more of them behind them.
fn extend_names<T: Unit>(list: Vec<Vec<T>>, more: Vec<Vec<T>>) -> (all: Vec<Vec<T>>)
    ensures
        unit_strings(all@) == with_names(unit_strings(list@), unit_strings(more@)),
{
    let ghost first = unit_strings(list@);
    let ghost rest = unit_strings(more@);
    let mut all = list;
    let mut i: usize = 0;
    assert(rest.take(0) =~= seq![]);
    while i < more.len()
        invariant
            i <= more@.len(),
            rest == unit_strings(more@),
            unit_strings(all@) == with_names(first, rest.take(i as int)),
        decreases more.len() - i,
    {
        let ghost before = unit_strings(all@);
        let name = units_between(&more[i], 0, more[i].len());
        assert(name@ =~= rest[i as int]);
        let n = all.len();
        assert(n > 0 ==> before.last() == all@[n - 1]@);
        if !is_dot_dot_here(&name) {
            all.push(name);
            assert(unit_strings(all@) =~= before.push(name@));
        } else if n > 0 && !is_dot_here(&all[n - 1]) && !is_dot_dot_here(&all[n - 1]) {
            all.pop();
            assert(unit_strings(all@) =~= before.drop_last());
        }
        i = i + 1;
        assert(rest.take(i as int).drop_last() =~= rest.take(i - 1));
        assert(rest.take(i as int).last() == rest[i - 1]);
    }
    assert(rest.take(i as int) =~= rest);
    all
}

/// Appends names to `out`, each behind a backslash.
fn write_names<T: Unit>(list: &Vec<Vec<T>>, out: &mut Vec<T>)
    ensures
        final(out)@ == old(out)@ + written_names(unit_strings(list@)),
{
    let ghost all = unit_strings(list@);
    let mut i: usize = 0;
    assert(all.take(0) =~= seq![]);
    assert(out@ =~= old(out)@ + written_names(all.take(0)));
    while i < list.len()
        invariant
            i <= list@.len(),
            all == unit_strings(list@),
            out@ == old(out)@ + written_names(all.take(i as int)),
        decreases list.len() - i,
    {
        let ghost before = written_names(all.take(i as int));
        out.push(separator_of::<T>(PathStyle::Windows));
        append_units(out, &list[i]);
        i = i + 1;
        assert(all.take(i as int).drop_last() =~= all.take(i - 1));
        assert(all.take(i as int).last() == list@[i - 1]@);
        assert(out@ =~= old(out)@ + (before.push(separator::<T>(PathStyle::Windows))
            + list@[i - 1]@));
    }
    assert(all.take(i as int) =~= all);
}

/// Appends units to `out`.
fn append_units<T: Unit>(out: &mut Vec<T>, units: &Vec<T>)
    ensures
        final(out)@ == old(out)@ + units@,
{
    let mut i: usize = 0;
    assert(out@ =~= old(out)@ + units@.take(0));
    while i < units.len()
        invariant
            i <= units@.len(),
            out@ == old(out)@ + units@.take(i as int),
        decreases units.len() - i,
    {
        out.push(units[i]);
        i = i + 1;
        assert(units@.take(i as int) =~= units@.take(i - 1).push(units@[i - 1]));
    }
    assert(units@.take(i as int) =~= units@);
}

/// The position behind the prefix and the root, and whether there is a root.
fn find_body<T: Unit>(path: &Vec<T>, prefix_len: usize, style: PathStyle) -> (found: (usize, bool))
    requires
        prefix_len == self::prefix_len(prefix_of(path@, style)),
        prefix_len <= path@.len(),
    ensures
        found.0 <= path@.len(),
        found.1 == is_rooted(path@, style),
        path@.skip(found.0 as int) == body(path@, style),
{
    if prefix_len < path.len() && is_separator_here(path[prefix_len], style) {
        assert(path@.skip(prefix_len + 1) =~= after_prefix(path@, style).skip(1));
        (prefix_len + 1, true)
    } else {
        (prefix_len, false)
    }
}

/// A path without prefix joined to a base with a verbatim one of this length.
fn join_verbatim<T: Unit>(base: &Vec<T>, prefix_len: usize, path: &Vec<T>) -> (whole: Vec<T>)
    requires
        prefix_len == self::prefix_len(prefix_of(base@, PathStyle::Windows)),
        prefix_len <= base@.len(),
        prefix_of(path@, PathStyle::Windows) is None,
    ensures
        whole@ == verbatim_joined(base@, path@),
{
    let style = PathStyle::Windows;
    let (base_body, base_rooted) = find_body(base, prefix_len, style);
    let (path_body, path_rooted) = find_body(path, 0, style);
    let before: Vec<Vec<T>> = if path_rooted {
        Vec::new()
    } else {
        split_names(base, base_body, style, true)
    };
    assert(path_rooted ==> unit_strings(before@) =~= seq![]);
    let list = extend_names(before, split_names(path, path_body, style, false));
    let mut whole = units_between(base, 0, prefix_len);
    assert(whole@ =~= base@.take(prefix_len as int));
    assert(unit_strings(list@).len() == list@.len());
    if list.len() > 0 {
        write_names(&list, &mut whole);
    } else if base_rooted || path_rooted {
        whole.push(separator_of::<T>(style));
    }
    whole
}

/// `path` joined to `base`.
fn join_units<T: Unit>(base: &Vec<T>, path: &Vec<T>, style: PathStyle) -> (whole: Vec<T>)
    ensures
        whole@ == joined(base@, path@, style),
{
    let (path_prefix, _) = parse_prefix(path, style);
    let mut whole: Vec<T> = Vec::new();
    if path_prefix.is_some() {
        append_units(&mut whole, path);
        assert(whole@ =~= path@);
        return whole;
    }
    let (prefix, len) = parse_prefix(base, style);
    if verbatim_here(&prefix) && path.len() > 0 {
        return join_verbatim(base, len, path);
    }
    if path.len() > 0 && is_separator_here(path[0], style) {
        whole = units_between(base, 0, len);
        assert(whole@ =~= base@.take(len as int));
        append_units(&mut whole, path);
        assert(style is Unix ==> whole@ =~= path@);
        return whole;
    }
    let bare_drive = match prefix {
        Some(Prefix::Disk(_)) => base.len() == 2,
        _ => false,
    };
    append_units(&mut whole, base);
    assert(whole@ =~= base@);
    if base.len() > 0 && !is_separator_here(base[base.len() - 1], style) && !bare_drive {
        whole.push(separator_of::<T>(style));
    }
    append_units(&mut whole, path);
    whole
}

/// `path` joined to `base`.
pub fn join(base: &str, path: &str, style: PathStyle) -> (whole: String)
    ensures
        whole@ == joined(base@, path@, style),
{
    let whole = join_units(&chars_of(base), &chars_of(path), style);
    assert(whole@.subrange(0, whole@.len() as int) =~= whole@);
    text_between(&whole, 0, whole.len())
}

/// The directory that the macro's `path` argument means, before symbolic links in it are followed:
/// a relative path is taken from the directory of the calling crate's manifest.
pub fn resolve_path(raw: &str, manifest_dir: &str, style: PathStyle) -> (base: String)
    ensures
        base@ == joined(manifest_dir@, raw@, style),
{
    join(manifest_dir, raw, style)
}

/// `name` joined to `dir`.
pub(crate) fn join_bytes(dir: &Vec<u8>, name: &Vec<u8>, style: PathStyle) -> (whole: Vec<u8>)
    ensures
        whole@ == joined(dir@, name@, style),
{
    join_units(dir, name, style)
}

/// Whether two byte strings are the same.
pub(crate) fn same_bytes(a: &[u8], b: &[u8]) -> (same: bool)
    ensures
        same == (a@ == b@),
{
    if a.len() != b.len() {
        return false;
    }
    let mut i: usize = 0;
    while i < a.len()
        invariant
            i <= a@.len() == b@.len(),
            forall|j: int| 0 <= j < i ==> a@[j] == b@[j],
        decreases a.len() - i,
    {
        if a[i] != b[i] {
            return false;
        }
        i = i + 1;
    }
    assert(a@ =~= b@);
    true
}

/// The components of a path.
pub fn path_components(path: &[u8], style: PathStyle) -> (list: Vec<Component<Vec<u8>>>)
    ensures
        component_views(list@) == components(path@, style),
{
    proof {
        reveal(components);
    }
    let path = vstd::slice::slice_to_vec(path);
    let (prefix, len) = parse_prefix(&path, style);
    let (from, rooted) = find_body(&path, len, style);
    let verbatim = verbatim_here(&prefix);
    let has_prefix = prefix.is_some();
    let mut list: Vec<Component<Vec<u8>>> = Vec::new();
    let implied = match &prefix {
        Some(Prefix::Device(_)) => true,
        Some(Prefix::Unc(_, _)) => true,
        _ => false,
    };
    if let Some(prefix) = prefix {
        list.push(Component::Prefix(prefix));
    }
    if rooted || implied {
        list.push(Component::Root);
    } else if !has_prefix && path.len() > 0 && path[0].code() == 0x2e && (path.len() == 1
        || is_separator_here(path[1], style)) {
        list.push(Component::Name(units_between(&path, 0, 1)));
        assert(path@.subrange(0, 1) =~= path@.take(1));
    }
    assert(component_views(list@) =~= lead(path@, style));
    let found = split_names(&path, from, style, verbatim);
    let ghost all = as_components(unit_strings(found@));
    let mut i: usize = 0;
    assert(component_views(list@) =~= lead(path@, style) + all.take(0));
    while i < found.len()
        invariant
            i <= found@.len(),
            all == as_components(unit_strings(found@)),
            component_views(list@) == lead(path@, style) + all.take(i as int),
        decreases found.len() - i,
    {
        let ghost before = component_views(list@);
        list.push(Component::Name(found[i].clone()));
        i = i + 1;
        assert(component_views(list@) =~= before.push(all[i - 1]));
        assert(all.take(i as int) =~= all.take(i - 1).push(all[i - 1]));
    }
    assert(all.take(i as int) =~= all);
    list
}

fn same_prefix(a: &Prefix<Vec<u8>>, b: &Prefix<Vec<u8>>) -> (same: bool)
    ensures
        same == (prefix_view(*a) == prefix_view(*b)),
{
    match (a, b) {
        (Prefix::Verbatim(x), Prefix::Verbatim(y)) => same_bytes(x.as_slice(), y.as_slice()),
        (Prefix::VerbatimUnc(x, v), Prefix::VerbatimUnc(y, w)) => {
            same_bytes(x.as_slice(), y.as_slice()) && same_bytes(v.as_slice(), w.as_slice())
        },
        (Prefix::VerbatimDisk(x), Prefix::VerbatimDisk(y)) => *x == *y,
        (Prefix::Device(x), Prefix::Device(y)) => same_bytes(x.as_slice(), y.as_slice()),
        (Prefix::Unc(x, v), Prefix::Unc(y, w)) => {
            same_bytes(x.as_slice(), y.as_slice()) && same_bytes(v.as_slice(), w.as_slice())
        },
        (Prefix::Disk(x), Prefix::Disk(y)) => *x == *y,
        _ => false,
    }
}

fn same_component(a: &Component<Vec<u8>>, b: &Component<Vec<u8>>) -> (same: bool)
    ensures
        same == (component_view(*a) == component_view(*b)),
{
    match (a, b) {
        (Component::Prefix(x), Component::Prefix(y)) => same_prefix(x, y),
        (Component::Root, Component::Root) => true,
        (Component::Name(x), Component::Name(y)) => same_bytes(x.as_slice(), y.as_slice()),
        _ => false,
    }
}

/// Whether the components of a path begin with those of another.
fn begins_with_components(all: &Vec<Component<Vec<u8>>>, first: &Vec<Component<Vec<u8>>>) -> (yes:
    bool)
    ensures
        yes == component_views(first@).is_prefix_of(component_views(all@)),
{
    let ghost whole = component_views(all@);
    let ghost part = component_views(first@);
    if first.len() > all.len() {
        assert(part.len() > whole.len());
        return false;
    }
    let mut i: usize = 0;
    while i < first.len()
        invariant
            i <= first@.len() <= all@.len(),
            whole == component_views(all@),
            part == component_views(first@),
            forall|j: int| 0 <= j < i ==> part[j] == whole[j],
        decreases first.len() - i,
    {
        if !same_component(&first[i], &all[i]) {
            assert(part[i as int] != whole[i as int]);
            assert(!part.is_prefix_of(whole)) by {
                if part.is_prefix_of(whole) {
                    assert(whole.subrange(0, part.len() as int)[i as int] == whole[i as int]);
                }
            }
            return false;
        }
        i = i + 1;
    }
    assert(part =~= whole.subrange(0, part.len() as int));
    true
}

/// Whether `base` is `path` or one of the directories that lead to it.
pub fn path_starts_with(path: &[u8], base: &[u8], style: PathStyle) -> (yes: bool)
    ensures
        yes == starts_with(path@, base@, style),
{
    begins_with_components(&path_components(path, style), &path_components(base, style))
}

/// Whether two paths have the same components.
pub fn paths_equal(a: &[u8], b: &[u8], style: PathStyle) -> (yes: bool)
    ensures
        yes == same_path(a@, b@, style),
{
    let first = path_components(a, style);
    let second = path_components(b, style);
    let same = first.len() == second.len() && begins_with_components(&second, &first);
    proof {
        let x = component_views(first@);
        let y = component_views(second@);
        assert(x.len() == first@.len() && y.len() == second@.len());
        if same {
            assert(x =~= y.subrange(0, x.len() as int));
            assert(x =~= y);
        } else if x == y {
            assert(x =~= y.subrange(0, x.len() as int));
        }
    }
    same
}

} // verus!
