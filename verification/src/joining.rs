//! What joining paths does to their components, and to the paths themselves.

use vstd::prelude::*;

#[allow(unused_imports)]
use crate::paths::{
    after_piece, after_prefix, as_components, begins, begins_verbatim, begins_with_device,
    begins_with_dot, begins_with_drive, body, Component, components, first_piece, first_separator, is_dot,
    is_dot_dot, is_letter, is_rooted, is_separator, is_verbatim, joined, kept, last_separator, lead,
    lemma_first_separator, lemma_first_separator_at, lemma_last_separator_at,
    lemma_last_separator_within, names, PathStyle, Prefix, prefix_len, prefix_of, separator,
    same_path, splits, starts_with, Unit, verbatim_prefix, with_name, with_names,
    written_names,
};

verus! {

/// A name that a directory can give to an entry.
pub open spec fn is_entry_name(name: Seq<u8>, style: PathStyle) -> bool {
    &&& name.len() > 0
    &&& !is_dot(name)
    &&& !is_dot_dot(name)
    &&& forall|i: int| 0 <= i < name.len() ==> !is_separator(#[trigger] name[i], style)
    &&& style is Windows ==> forall|i: int| 0 <= i < name.len() ==> #[trigger] name[i] != 0x3a
}

/// Whether the entries of a directory have its components before their own name. On Windows a path
/// that begins like a share or a device without being one yet, such as `\\server`, becomes one by the
/// name that is put behind it; and a verbatim prefix alone gets a root. A canonical path is never of
/// this kind.
pub open spec fn is_settled(dir: Seq<u8>, style: PathStyle) -> bool {
    style is Windows ==> match prefix_of(dir, style) {
        None => !(dir.len() >= 2 && is_separator(dir[0], style) && is_separator(dir[1], style)) || (
        dir.len() >= 3 && is_separator(dir[2], style)),
        Some(Prefix::Disk(_)) => true,
        Some(Prefix::Unc(_, _)) => true,
        Some(Prefix::Device(device)) => device.len() > 0 || is_rooted(dir, style),
        Some(Prefix::VerbatimUnc(_, share)) => share.len() > 0 && is_rooted(dir, style),
        Some(_) => is_rooted(dir, style),
    }
}

/// A path that agrees with another on its prefix, and has a separator behind that, has the same prefix.
proof fn lemma_same_prefix(a: Seq<u8>, b: Seq<u8>, prefix: Prefix<Seq<u8>>)
    requires
        prefix_of(a, PathStyle::Windows) == Some(prefix),
        prefix matches Prefix::VerbatimUnc(_, share) ==> share.len() > 0,
        ({
            let n = prefix_len(Some(prefix));
            &&& n <= a.len()
            &&& n < b.len()
            &&& a.take(n) == b.take(n)
            &&& is_separator(b[n], PathStyle::Windows)
            &&& is_verbatim(Some(prefix)) ==> b[n] == 0x5c && n < a.len() && is_separator(
                a[n],
                PathStyle::Windows,
            )
        }),
    ensures
        prefix_of(b, PathStyle::Windows) == Some(prefix),
{
    let style = PathStyle::Windows;
    let n = prefix_len(Some(prefix));
    assert forall|i: int| 0 <= i < n implies a[i] == b[i] by {
        assert(a.take(n)[i] == b.take(n)[i]);
    }
    match prefix {
        Prefix::Disk(_) => {
            assert(begins_with_drive(b));
        },
        Prefix::Device(device) => {
            let x = a.skip(4);
            let y = b.skip(4);
            let k = device.len() as int;
            lemma_first_separator(x, style, false);
            assert forall|i: int| 0 <= i < k implies !splits(#[trigger] y[i], style, false) by {
                assert(y[i] == x[i]);
            }
            lemma_first_separator_at(y, style, false, k);
            assert(first_piece(y, false) =~= device);
            assert(b[2] == 0x2e);
        },
        Prefix::Unc(server, share) => {
            lemma_two_pieces(a, b, 2, server, share, false);
            assert(begins_verbatim(b) == begins_verbatim(a));
            assert(begins_with_device(b) == begins_with_device(a));
        },
        Prefix::VerbatimDisk(_) => {
            assert(begins_verbatim(b));
            let y = b.skip(4);
            assert(y[1] == 0x3a && y[2] == b[6]);
            assert(begins_with_drive(y));
            assert(y[0] == a.skip(4)[0]);
        },
        Prefix::VerbatimUnc(server, share) => {
            assert(begins_verbatim(b));
            let x = a.skip(4);
            let y = b.skip(4);
            assert forall|i: int| 0 <= i < 4 implies #[trigger] y[i] == x[i] by {}
            assert(begins(y, seq![0x55u32, 0x4eu32, 0x43u32, 0x5cu32]));
            assert(x.skip(4) =~= a.skip(8));
            assert(y.skip(4) =~= b.skip(8));
            lemma_two_pieces(a, b, 8, server, share, true);
        },
        Prefix::Verbatim(piece) => {
            let x = a.skip(4);
            let y = b.skip(4);
            let k = piece.len() as int;
            assert(begins_verbatim(b));
            lemma_first_separator(x, style, true);
            assert(x[k] == a[n]);
            assert(y[k] == b[n]);
            assert(a[n] == 0x5c);
            assert forall|i: int| 0 <= i <= k implies #[trigger] y[i] == x[i] by {
                assert(a[4 + i] == b[4 + i]);
            }
            assert forall|i: int| 0 <= i < k implies !splits(#[trigger] y[i], style, true) by {
                assert(y[i] == x[i]);
            }
            lemma_first_separator_at(y, style, true, k);
            assert(first_piece(y, true) =~= piece);
            lemma_verbatim_piece(x, y, k);
        },
    }
}

/// Behind `\\?\`, two paths that agree up to the first backslash are taken for the same kind.
proof fn lemma_verbatim_piece(x: Seq<u8>, y: Seq<u8>, k: int)
    requires
        0 <= k < x.len(),
        k < y.len(),
        forall|i: int| 0 <= i <= k ==> x[i] == y[i],
        x[k] == 0x5c,
        forall|i: int| 0 <= i < k ==> x[i] != 0x5c,
        verbatim_prefix(x) is Verbatim,
    ensures
        verbatim_prefix(y) is Verbatim,
{
    let unc = seq![0x55u32, 0x4eu32, 0x43u32, 0x5cu32];
    if begins(y, unc) {
        assert(y[0].spec_code() == unc[0] && y[1].spec_code() == unc[1] && y[2].spec_code() == unc[2]
            && y[3].spec_code() == unc[3]);
        assert(k == 3);
        assert forall|i: int| 0 <= i < 4 implies (#[trigger] x[i]).spec_code() == unc[i] by {
            assert(x[i] == y[i]);
        }
        assert(begins(x, unc));
    }
    if begins_with_drive(y) && (y.len() == 2 || is_separator(y[2], PathStyle::Windows)) {
        assert(k >= 2);
        assert(begins_with_drive(x));
        assert(x[2] == y[2]);
    }
}

/// Two pieces that one path has from `at` on, another has that agrees with it and ends the second.
proof fn lemma_two_pieces(
    a: Seq<u8>,
    b: Seq<u8>,
    at: int,
    server: Seq<u8>,
    share: Seq<u8>,
    verbatim: bool,
)
    requires
        0 <= at <= a.len(),
        server == first_piece(a.skip(at), verbatim),
        share == first_piece(after_piece(a.skip(at), verbatim), verbatim),
        share.len() > 0,
        ({
            let n = at + server.len() + 1 + share.len();
            &&& n < b.len()
            &&& forall|i: int| 0 <= i < n ==> a[i] == b[i]
            &&& splits(b[n], PathStyle::Windows, verbatim)
        }),
    ensures
        server == first_piece(b.skip(at), verbatim),
        share == first_piece(after_piece(b.skip(at), verbatim), verbatim),
{
    let style = PathStyle::Windows;
    let x = a.skip(at);
    let y = b.skip(at);
    let k = server.len() as int;
    lemma_first_separator(x, style, verbatim);
    assert(first_separator(x, style, verbatim) == k);
    assert(k < x.len());
    assert(y[k] == x[k]);
    assert forall|i: int| 0 <= i < k implies !splits(#[trigger] y[i], style, verbatim) by {
        assert(y[i] == x[i]);
    }
    lemma_first_separator_at(y, style, verbatim, k);
    assert(first_piece(y, verbatim) =~= server);
    let v = after_piece(x, verbatim);
    let w = after_piece(y, verbatim);
    let m = share.len() as int;
    lemma_first_separator(v, style, verbatim);
    assert(w[m] == b[at + k + 1 + m]);
    assert forall|i: int| 0 <= i < m implies !splits(#[trigger] w[i], style, verbatim) by {
        assert(w[i] == b[at + k + 1 + i]);
        assert(v[i] == a[at + k + 1 + i]);
    }
    lemma_first_separator_at(w, style, verbatim, m);
    assert forall|i: int| 0 <= i < m implies #[trigger] w[i] == v[i] by {
        assert(w[i] == b[at + k + 1 + i]);
        assert(v[i] == a[at + k + 1 + i]);
    }
    assert(first_piece(w, verbatim) =~= share);
}

/// A name behind other names is one name more.
proof fn lemma_one_name_more(before: Seq<u8>, name: Seq<u8>, style: PathStyle, verbatim: bool)
    requires
        is_entry_name(name, style),
        verbatim ==> style is Windows,
        before.len() > 0 ==> splits(before.last(), style, verbatim),
    ensures
        names(before + name, style, verbatim) == names(before, style, verbatim).push(name),
{
    let whole = before + name;
    let k = before.len() - 1;
    assert forall|i: int| k < i < whole.len() implies !splits(#[trigger] whole[i], style, verbatim) by {
        assert(whole[i] == name[i - before.len()]);
    }
    lemma_last_separator_at(whole, style, verbatim, k);
    lemma_last_separator_at(before, style, verbatim, k);
    if k < 0 {
        assert(whole =~= name);
        assert(names(whole, style, verbatim) =~= names(before, style, verbatim).push(name));
    } else {
        assert(whole.take(k) =~= before.take(k));
        assert(whole.skip(k + 1) =~= name);
        assert(before.skip(k + 1) =~= seq![]);
        assert(names(whole, style, verbatim) =~= names(before, style, verbatim).push(name));
    }
}

/// A separator behind names adds none.
proof fn lemma_trailing_separator(path: Seq<u8>, c: u8, style: PathStyle, verbatim: bool)
    requires
        splits(c, style, verbatim),
    ensures
        names(path.push(c), style, verbatim) == names(path, style, verbatim),
{
    let whole = path.push(c);
    lemma_last_separator_at(whole, style, verbatim, path.len() as int);
    assert(whole.take(path.len() as int) =~= path);
    assert(whole.skip(path.len() as int + 1) =~= seq![]);
    assert(names(whole, style, verbatim) =~= names(path, style, verbatim));
}

/// Whether each of a list of names can be written behind a backslash and be read again.
spec fn are_written(list: Seq<Seq<u8>>) -> bool {
    forall|i: int| 0 <= i < list.len() ==> is_written(#[trigger] list[i])
}

spec fn is_written(name: Seq<u8>) -> bool {
    name.len() > 0 && forall|j: int| 0 <= j < name.len() ==> #[trigger] name[j] != 0x5c
}

proof fn lemma_names_are_written(path: Seq<u8>)
    ensures
        are_written(names(path, PathStyle::Windows, true)),
    decreases path.len(),
{
    let style = PathStyle::Windows;
    let k = last_separator(path, style, true);
    lemma_last_separator_within(path, style, true);
    lemma_no_separator_behind(path);
    if k >= 0 {
        lemma_names_are_written(path.take(k));
    }
}

proof fn lemma_no_separator_behind(path: Seq<u8>)
    ensures
        forall|i: int|
            last_separator(path, PathStyle::Windows, true) < i < path.len() ==> #[trigger] path[i]
                != 0x5c,
    decreases path.len(),
{
    if path.len() > 0 && path.last() != 0x5c {
        lemma_no_separator_behind(path.drop_last());
        lemma_last_separator_within(path.drop_last(), PathStyle::Windows, true);
        assert forall|i: int|
            last_separator(path, PathStyle::Windows, true) < i < path.len() implies #[trigger] path[i]
            != 0x5c by {
            if i < path.len() - 1 {
                assert(path.drop_last()[i] == path[i]);
            }
        }
    }
}

/// Names that are written behind backslashes are read again.
proof fn lemma_written_names(list: Seq<Seq<u8>>)
    requires
        are_written(list),
        list.len() > 0,
    ensures
        written_names(list).len() > 0,
        written_names(list)[0] == 0x5c,
        names(written_names(list).skip(1), PathStyle::Windows, true) == list,
    decreases list.len(),
{
    let style = PathStyle::Windows;
    let front = list.drop_last();
    let last = list.last();
    let text = written_names(list);
    assert(is_written(list[list.len() - 1]));
    if front.len() == 0 {
        assert(written_names(front) =~= seq![]);
        assert(text.skip(1) =~= last);
        lemma_last_separator_at(last, style, true, -1);
        assert(names(last, style, true) =~= list);
    } else {
        assert(are_written(front)) by {
            assert forall|i: int| 0 <= i < front.len() implies is_written(#[trigger] front[i]) by {
                assert(front[i] == list[i]);
            }
        }
        lemma_written_names(front);
        let before = written_names(front);
        let body = text.skip(1);
        let k = before.len() - 1;
        assert(body =~= before.skip(1).push(0x5c) + last);
        assert(body[k] == 0x5c);
        assert forall|i: int| k < i < body.len() implies !splits(#[trigger] body[i], style, true) by {
            assert(body[i] == last[i - k - 1]);
        }
        lemma_last_separator_at(body, style, true, k);
        assert(body.take(k) =~= before.skip(1));
        assert(body.skip(k + 1) =~= last);
        assert(names(body, style, true) =~= list);
    }
}

/// The components of an entry of a directory are those of the directory and its own name.
pub proof fn lemma_entry_components(dir: Seq<u8>, name: Seq<u8>, style: PathStyle)
    requires
        is_entry_name(name, style),
        is_settled(dir, style),
    ensures
        components(joined(dir, name, style), style) == components(dir, style).push(
            Component::Name(name),
        ),
        is_settled(joined(dir, name, style), style),
{
    assert(!is_separator(name[0], style));
    assert(prefix_of(name, style) is None) by {
        if name.len() >= 2 {
            assert(style is Windows ==> name[1] != 0x3a);
        }
    }
    if prefix_of(dir, style) is None {
        lemma_plain_entry(dir, name, style);
    } else if is_verbatim(prefix_of(dir, style)) {
        lemma_verbatim_entry(dir, name);
    } else {
        lemma_windows_entry(dir, name);
    }
}

proof fn lemma_plain_entry(dir: Seq<u8>, name: Seq<u8>, style: PathStyle)
    requires
        is_entry_name(name, style),
        is_settled(dir, style),
        prefix_of(name, style) is None,
        prefix_of(dir, style) is None,
    ensures
        components(joined(dir, name, style), style) == components(dir, style).push(
            Component::Name(name),
        ),
        is_settled(joined(dir, name, style), style),
{
    reveal(components);
    let path = joined(dir, name, style);
    u8::lemma_ascii(0x2f);
    u8::lemma_ascii(0x5c);
    assert(!is_separator(name[0], style));
    assert(name.len() > 1 ==> !is_separator(name[1], style));
    assert(style is Windows ==> name[0] != 0x3a);
    assert(dir.len() > 0 ==> path[0] == dir[0]);
    assert(dir.len() > 1 ==> path[1] == dir[1]);
    assert(dir.len() > 2 ==> path[2] == dir[2]);
    if dir.len() == 0 {
        assert(path =~= name);
    } else if dir.len() == 1 {
        assert(is_separator(dir[0], style) ==> path[1] == name[0]);
        assert(!is_separator(dir[0], style) ==> path[1] == separator::<u8>(style));
    }
    if style is Windows && path.len() >= 2 && is_separator(path[0], style) && is_separator(
        path[1],
        style,
    ) {
        assert(path.skip(2)[0] == path[2]);
        lemma_first_separator_at(path.skip(2), style, false, 0);
        assert(first_piece(path.skip(2), false).len() == 0);
    }
    assert(prefix_of(path, style) is None);
    assert(after_prefix(dir, style) =~= dir);
    assert(after_prefix(path, style) =~= path);
    if dir.len() == 0 {
        assert(body(dir, style) =~= seq![]);
        assert(body(path, style) =~= seq![] + name);
        lemma_one_name_more(seq![], name, style, false);
    } else {
        lemma_grown_body(dir, path, name, style);
    }
    assert(lead(path, style) =~= lead(dir, style)) by {
        if begins_with_dot(dir, style) {
            assert(path.take(1) =~= dir.take(1));
        }
    }
    assert(components(path, style) =~= components(dir, style).push(Component::Name(name)));
}

/// What follows prefix and root of a directory has one name more with a name put behind it.
proof fn lemma_grown_body(dir: Seq<u8>, path: Seq<u8>, name: Seq<u8>, style: PathStyle)
    requires
        is_entry_name(name, style),
        dir.len() > 0,
        prefix_of(path, style) == prefix_of(dir, style),
        0 <= prefix_len(prefix_of(dir, style)) < dir.len(),
        path == if is_separator(dir.last(), style) {
            dir + name
        } else {
            dir.push(separator(style)) + name
        },
    ensures
        is_rooted(path, style) == is_rooted(dir, style),
        names(body(path, style), style, false) == names(body(dir, style), style, false).push(
            name,
        ),
{
    let n = prefix_len(prefix_of(dir, style));
    assert(after_prefix(dir, style)[0] == dir[n]);
    assert(after_prefix(path, style)[0] == path[n]);
    assert(path[n] == dir[n]);
    let before = body(dir, style);
    let after = body(path, style);
    u8::lemma_ascii(0x2f);
    u8::lemma_ascii(0x5c);
    if is_separator(dir.last(), style) {
        assert(after =~= before + name);
        assert(before.len() > 0 ==> before.last() == dir.last());
        lemma_one_name_more(before, name, style, false);
    } else {
        let c: u8 = separator(style);
        assert(before.len() > 0);
        assert(after =~= before.push(c) + name);
        lemma_one_name_more(before.push(c), name, style, false);
        lemma_trailing_separator(before, c, style, false);
    }
}

/// A prefix stands within its path; behind that of a share or a device a separator follows, if
/// anything does.
proof fn lemma_prefix_within<T: Unit>(path: Seq<T>)
    ensures
        ({
            let prefix = prefix_of(path, PathStyle::Windows);
            let n = prefix_len(prefix);
            &&& 0 <= n <= path.len()
            &&& (prefix matches Some(Prefix::Unc(_, _)) || prefix matches Some(Prefix::Device(_)))
                && n < path.len() ==> is_separator(path[n], PathStyle::Windows)
            &&& prefix matches Some(Prefix::Unc(_, _)) ==> n > 0 && !is_separator(
                path[n - 1],
                PathStyle::Windows,
            )
            &&& prefix matches Some(Prefix::Device(device)) ==> device.len() > 0 ==> n > 0
                && !is_separator(path[n - 1], PathStyle::Windows)
        }),
{
    let style = PathStyle::Windows;
    let x = path.skip(2);
    lemma_first_separator(x, style, false);
    let y = after_piece(x, false);
    lemma_first_separator(y, style, false);
    let z = path.skip(4);
    lemma_first_separator(z, style, false);
    lemma_first_separator(z, style, true);
    let u = z.skip(4);
    lemma_first_separator(u, style, true);
    lemma_first_separator(after_piece(u, true), style, true);
    match prefix_of(path, style) {
        Some(Prefix::Unc(server, share)) => {
            let k = server.len() as int;
            let m = share.len() as int;
            assert(y =~= path.skip(3 + k));
            assert(y[m - 1] == path[3 + k + m - 1]);
            if 3 + k + m < path.len() {
                assert(y[m] == path[3 + k + m]);
            }
        },
        Some(Prefix::Device(device)) => {
            let m = device.len() as int;
            if m > 0 {
                assert(z[m - 1] == path[4 + m - 1]);
            }
            if 4 + m < path.len() {
                assert(z[m] == path[4 + m]);
            }
        },
        _ => {},
    }
}

proof fn lemma_windows_entry(dir: Seq<u8>, name: Seq<u8>)
    requires
        is_entry_name(name, PathStyle::Windows),
        is_settled(dir, PathStyle::Windows),
        prefix_of(name, PathStyle::Windows) is None,
        prefix_of(dir, PathStyle::Windows) is Some,
        !is_verbatim(prefix_of(dir, PathStyle::Windows)),
    ensures
        components(joined(dir, name, PathStyle::Windows), PathStyle::Windows) == components(
            dir,
            PathStyle::Windows,
        ).push(Component::Name(name)),
        is_settled(joined(dir, name, PathStyle::Windows), PathStyle::Windows),
{
    reveal(components);
    let style = PathStyle::Windows;
    let path = joined(dir, name, style);
    let n = prefix_len(prefix_of(dir, style));
    let prefix = prefix_of(dir, style)->0;
    lemma_prefix_within(dir);
    u8::lemma_ascii(0x5c);
    assert(!is_separator(name[0], style));
    if n < dir.len() {
        assert(after_prefix(dir, style)[0] == dir[n]);
        assert(path[n] == dir[n]);
        assert(path.take(n) =~= dir.take(n));
        if prefix is Disk {
            assert(path[0] == dir[0] && path[1] == dir[1]);
            assert(begins_with_drive(path));
        } else {
            lemma_same_prefix(dir, path, prefix);
        }
        assert(prefix_of(path, style) == Some(prefix));
        lemma_grown_body(dir, path, name, style);
    } else if prefix is Disk {
        assert(path =~= dir + name);
        assert(path[0] == dir[0] && path[1] == dir[1]);
        assert(begins_with_drive(path));
        assert(after_prefix(dir, style) =~= seq![]);
        assert(after_prefix(path, style) =~= name);
        assert(seq![] + name =~= name);
        lemma_one_name_more(seq![], name, style, false);
    } else {
        assert(after_prefix(dir, style) =~= seq![]);
        assert(!is_separator(dir.last(), style));
        assert(path =~= dir.push(0x5c) + name);
        assert(path.take(n) =~= dir.take(n));
        lemma_same_prefix(dir, path, prefix);
        assert(after_prefix(path, style)[0] == 0x5c);
        assert(body(path, style) =~= seq![] + name);
        lemma_one_name_more(seq![], name, style, false);
    }
    assert(lead(path, style) =~= lead(dir, style));
    assert(components(path, style) =~= components(dir, style).push(Component::Name(name)));
}

proof fn lemma_verbatim_entry(dir: Seq<u8>, name: Seq<u8>)
    requires
        is_entry_name(name, PathStyle::Windows),
        is_settled(dir, PathStyle::Windows),
        prefix_of(name, PathStyle::Windows) is None,
        is_verbatim(prefix_of(dir, PathStyle::Windows)),
    ensures
        components(joined(dir, name, PathStyle::Windows), PathStyle::Windows) == components(
            dir,
            PathStyle::Windows,
        ).push(Component::Name(name)),
        is_settled(joined(dir, name, PathStyle::Windows), PathStyle::Windows),
{
    reveal(components);
    let style = PathStyle::Windows;
    let path = joined(dir, name, style);
    let n = prefix_len(prefix_of(dir, style));
    lemma_prefix_within(dir);
    let prefix = prefix_of(dir, style)->0;
    assert(after_prefix(dir, style)[0] == dir[n]);
    assert(is_rooted(dir, style));
    let before = names(body(dir, style), style, true);
    assert(after_prefix(name, style) =~= name);
    assert(!is_separator(name[0], style));
    lemma_one_name_more(seq![], name, style, false);
    assert(seq![] + name =~= name);
    lemma_last_separator_at(Seq::<u8>::empty(), style, false, -1);
    assert(names(Seq::<u8>::empty(), style, false) =~= seq![]);
    assert(names(name, style, false) =~= seq![name]);
    assert(seq![name].drop_last() =~= seq![]);
    assert(with_names(before, seq![name].drop_last()) == before);
    let list = before.push(name);
    assert(with_names(before, seq![name]) == list);
    lemma_names_are_written(body(dir, style));
    assert(is_written(name)) by {
        assert forall|j: int| 0 <= j < name.len() implies #[trigger] name[j] != 0x5c by {
            assert(!is_separator(name[j], style));
        }
    }
    lemma_written_names(list);
    assert(path == dir.take(n) + written_names(list));
    assert(path[n] == written_names(list)[0]);
    assert(path.take(n) =~= dir.take(n));
    lemma_same_prefix(dir, path, prefix);
    assert(after_prefix(path, style) =~= written_names(list));
    assert(lead(path, style) =~= lead(dir, style));
    assert(components(path, style) =~= components(dir, style).push(Component::Name(name)));
}

/// Whether a path stands for itself, whatever it is joined to: on Unix an absolute one, on Windows any
/// with a prefix, and so any absolute one.
pub open spec fn is_self_contained<T: Unit>(path: Seq<T>, style: PathStyle) -> bool {
    match style {
        PathStyle::Unix => path.len() > 0 && is_separator(path[0], style),
        PathStyle::Windows => prefix_of(path, style) is Some,
    }
}

/// An absolute path stands for itself, whatever it is joined to.
pub proof fn law_absolute_path_stands_for_itself<T: Unit>(
    base: Seq<T>,
    path: Seq<T>,
    style: PathStyle,
)
    requires
        is_self_contained(path, style),
    ensures
        joined(base, path, style) == path,
{
}


/// Where a path has a prefix, another that agrees with it that far has one too.
proof fn lemma_prefix_stays<T: Unit>(a: Seq<T>, b: Seq<T>)
    requires
        prefix_of(a, PathStyle::Windows) is Some,
        prefix_len(prefix_of(a, PathStyle::Windows)) <= b.len(),
        ({
            let n = prefix_len(prefix_of(a, PathStyle::Windows));
            a.take(n) == b.take(n)
        }),
    ensures
        prefix_of(b, PathStyle::Windows) is Some,
{
    let style = PathStyle::Windows;
    let n = prefix_len(prefix_of(a, style));
    lemma_prefix_within(a);
    assert forall|i: int| 0 <= i < n implies a[i] == b[i] by {
        assert(a.take(n)[i] == b.take(n)[i]);
    }
    match prefix_of(a, style)->0 {
        Prefix::Disk(_) => {
            assert(begins_with_drive(b));
        },
        Prefix::Device(_) => {
            assert(begins_with_device(b));
        },
        Prefix::Unc(server, share) => {
            let x = a.skip(2);
            let y = b.skip(2);
            let k = server.len() as int;
            lemma_first_separator(x, style, false);
            assert(y[k] == x[k]);
            assert forall|i: int| 0 <= i < k implies !splits(#[trigger] y[i], style, false) by {
                assert(y[i] == x[i]);
            }
            lemma_first_separator_at(y, style, false, k);
            let v = after_piece(x, false);
            let w = after_piece(y, false);
            lemma_first_separator(v, style, false);
            lemma_first_separator(w, style, false);
            assert(v[0] == a[3 + k]);
            assert(w[0] == b[3 + k]);
        },
        _ => {
            assert(begins_verbatim(b));
        },
    }
}

/// A resolved path resolves to itself: where the path or the directory that it is taken from stands
/// for itself, so does what comes of them, and it does not change when it is taken from any directory.
pub proof fn law_resolved_path_resolves_to_itself<T: Unit>(
    raw: Seq<T>,
    manifest_dir: Seq<T>,
    other_dir: Seq<T>,
    style: PathStyle,
)
    requires
        is_self_contained(raw, style) || is_self_contained(manifest_dir, style),
    ensures
        is_self_contained(joined(manifest_dir, raw, style), style),
        joined(other_dir, joined(manifest_dir, raw, style), style) == joined(
            manifest_dir,
            raw,
            style,
        ),
{
    let path = joined(manifest_dir, raw, style);
    if is_self_contained(raw, style) {
        law_absolute_path_stands_for_itself(manifest_dir, raw, style);
    } else if style is Windows {
        let n = prefix_len(prefix_of(manifest_dir, style));
        lemma_prefix_within(manifest_dir);
        assert(path.take(n) =~= manifest_dir.take(n));
        lemma_prefix_stays(manifest_dir, path);
    } else {
        assert(path[0] == manifest_dir[0]);
    }
    law_absolute_path_stands_for_itself(other_dir, path, style);
}

/// On Unix a path that is joined to a base is kept whole, `..` and all: what comes of it ends in the
/// path, and begins with the base unless the path is absolute. Between them stands one `/`, unless the
/// base already ends in one or is empty.
pub proof fn law_unix_join_keeps_both<T: Unit>(base: Seq<T>, path: Seq<T>)
    ensures
        ({
            let whole = joined(base, path, PathStyle::Unix);
            let absolute = path.len() > 0 && path[0].spec_code() == 0x2f;
            let open_end = base.len() > 0 && base.last().spec_code() != 0x2f;
            &&& path.is_suffix_of(whole)
            &&& absolute ==> whole == path
            &&& !absolute ==> base.is_prefix_of(whole)
            &&& !absolute && open_end ==> whole.len() == base.len() + 1 + path.len()
                && whole[base.len() as int].spec_code() == 0x2f
            &&& !absolute && !open_end ==> whole.len() == base.len() + path.len()
        }),
{
    let whole = joined(base, path, PathStyle::Unix);
    T::lemma_ascii(0x2f);
    assert(path =~= whole.subrange(whole.len() - path.len(), whole.len() as int));
    if !(path.len() > 0 && path[0].spec_code() == 0x2f) {
        assert(base =~= whole.subrange(0, base.len() as int));
    }
}

/// On Unix the components of a path are the names between its `/`, with the root before them where it
/// begins with one. What is empty, or is `.` behind a `/`, is no component; `..` is one.
pub proof fn law_unix_components(before: Seq<u8>, piece: Seq<u8>)
    requires
        forall|i: int| 0 <= i < piece.len() ==> #[trigger] piece[i] != 0x2f,
    ensures
        components(piece, PathStyle::Unix) == if piece.len() == 0 {
            Seq::<Component<Seq<u8>>>::empty()
        } else {
            seq![Component::Name(piece)]
        },
        components(before.push(0x2f) + piece, PathStyle::Unix) == (if before.len() == 0 {
            seq![Component::<Seq<u8>>::Root]
        } else {
            components(before, PathStyle::Unix)
        }) + (if piece.len() == 0 || piece == seq![0x2eu8] {
            Seq::<Component<Seq<u8>>>::empty()
        } else {
            seq![Component::Name(piece)]
        }),
{
    let style = PathStyle::Unix;
    assert(is_dot(piece) <==> piece =~= seq![0x2eu8]);
    lemma_unix_piece(piece);
    if before.len() == 0 {
        lemma_unix_root(piece);
        assert(before.push(0x2f) + piece =~= seq![0x2fu8] + piece);
    } else {
        lemma_unix_behind(before, piece);
    }
    assert(as_components(kept(piece, false)) =~= if piece.len() == 0 || piece == seq![0x2eu8] {
        Seq::<Component<Seq<u8>>>::empty()
    } else {
        seq![Component::Name(piece)]
    });
}

proof fn lemma_unix_piece(piece: Seq<u8>)
    requires
        forall|i: int| 0 <= i < piece.len() ==> #[trigger] piece[i] != 0x2f,
    ensures
        components(piece, PathStyle::Unix) == if piece.len() == 0 {
            Seq::<Component<Seq<u8>>>::empty()
        } else {
            seq![Component::Name(piece)]
        },
        names(piece, PathStyle::Unix, false) == kept(piece, false),
{
    reveal(components);
    let style = PathStyle::Unix;
    assert(after_prefix(piece, style) =~= piece);
    lemma_last_separator_at(piece, style, false, -1);
    if is_dot(piece) {
        assert(piece.take(1) =~= piece);
    }
    assert(piece.len() > 1 ==> !is_separator(piece[1], style));
    assert(components(piece, style) =~= if piece.len() == 0 {
        Seq::<Component<Seq<u8>>>::empty()
    } else {
        seq![Component::Name(piece)]
    });
}

proof fn lemma_unix_root(piece: Seq<u8>)
    requires
        forall|i: int| 0 <= i < piece.len() ==> #[trigger] piece[i] != 0x2f,
    ensures
        components(seq![0x2fu8] + piece, PathStyle::Unix) == seq![Component::<Seq<u8>>::Root]
            + as_components(kept(piece, false)),
{
    reveal(components);
    let style = PathStyle::Unix;
    let path = seq![0x2fu8] + piece;
    lemma_unix_piece(piece);
    assert(after_prefix(path, style) =~= path);
    assert(body(path, style) =~= piece);
    assert(lead(path, style) =~= seq![Component::<Seq<u8>>::Root]);
}

proof fn lemma_unix_behind(before: Seq<u8>, piece: Seq<u8>)
    requires
        before.len() > 0,
        forall|i: int| 0 <= i < piece.len() ==> #[trigger] piece[i] != 0x2f,
    ensures
        components(before.push(0x2f) + piece, PathStyle::Unix) == components(before, PathStyle::Unix)
            + as_components(kept(piece, false)),
{
    let style = PathStyle::Unix;
    lemma_unix_body(before, piece);
    lemma_unix_lead(before, piece);
    lemma_names_behind(body(before, style), 0x2f, piece, style, false);
    lemma_components_grow(before, before.push(0x2f) + piece, kept(piece, false), style);
}

proof fn lemma_unix_body(before: Seq<u8>, piece: Seq<u8>)
    requires
        before.len() > 0,
    ensures
        body(before.push(0x2f) + piece, PathStyle::Unix) == body(before, PathStyle::Unix).push(0x2f)
            + piece,
{
    let style = PathStyle::Unix;
    let path = before.push(0x2f) + piece;
    assert(after_prefix(path, style) =~= path);
    assert(after_prefix(before, style) =~= before);
    assert(path[0] == before[0]);
    assert(body(path, style) =~= body(before, style).push(0x2f) + piece);
}

proof fn lemma_unix_lead(before: Seq<u8>, piece: Seq<u8>)
    requires
        before.len() > 0,
    ensures
        lead(before.push(0x2f) + piece, PathStyle::Unix) == lead(before, PathStyle::Unix),
{
    let style = PathStyle::Unix;
    let path = before.push(0x2f) + piece;
    assert(after_prefix(path, style) =~= path);
    assert(after_prefix(before, style) =~= before);
    assert(path[0] == before[0]);
    assert(before.len() > 1 ==> path[1] == before[1]);
    assert(before.len() == 1 ==> path[1] == 0x2f);
    assert(path.take(1) =~= before.take(1));
}

/// A path starts with another where its components are those of the other and more, and is the same
/// where they are the same.
pub proof fn law_paths_are_compared_by_components(
    path: Seq<u8>,
    base: Seq<u8>,
    rest: Seq<Component<Seq<u8>>>,
    style: PathStyle,
)
    ensures
        components(path, style) == components(base, style) + rest ==> starts_with(path, base, style),
        starts_with(path, base, style) ==> components(path, style) == components(base, style)
            + components(path, style).skip(components(base, style).len() as int),
        same_path(path, base, style) <==> components(path, style) == components(base, style),
        same_path(path, base, style) <==> starts_with(path, base, style) && starts_with(
            base,
            path,
            style,
        ),
{
    let x = components(path, style);
    let y = components(base, style);
    if x == y + rest {
        assert(y =~= x.subrange(0, y.len() as int));
    }
    if starts_with(path, base, style) {
        assert(x =~= y + x.skip(y.len() as int));
        if starts_with(base, path, style) {
            assert(x =~= y);
        }
    }
    if x == y {
        assert(y =~= x.subrange(0, y.len() as int));
    }
}

/// On Windows a path with a drive letter stands for itself, whatever it is joined to.
pub proof fn law_drive_replaces_all<T: Unit>(base: Seq<T>, path: Seq<T>)
    requires
        path.len() >= 2,
        0x41 <= path[0].spec_code() <= 0x5a || 0x61 <= path[0].spec_code() <= 0x7a,
        path[1].spec_code() == 0x3a,
    ensures
        joined(base, path, PathStyle::Windows) == path,
{
}

/// On Windows a relative path that is joined to a base is kept whole, unless the base begins with
/// `\\?\`: what comes of it begins with the base and ends in the path. Between them stands one `\`,
/// unless the base ends in a separator, is empty, or is a drive and nothing more.
pub proof fn law_windows_join_keeps_both<T: Unit>(base: Seq<T>, path: Seq<T>)
    requires
        path.len() > 0 ==> path[0].spec_code() != 0x2f && path[0].spec_code() != 0x5c,
        path.len() > 1 ==> path[1].spec_code() != 0x3a,
        !(base.len() >= 4 && base[0].spec_code() == 0x5c && base[1].spec_code() == 0x5c
            && base[2].spec_code() == 0x3f && base[3].spec_code() == 0x5c),
    ensures
        ({
            let whole = joined(base, path, PathStyle::Windows);
            let drive = base.len() == 2 && base[1].spec_code() == 0x3a && (0x41
                <= base[0].spec_code() <= 0x5a || 0x61 <= base[0].spec_code() <= 0x7a);
            let open_end = base.len() > 0 && base.last().spec_code() != 0x2f
                && base.last().spec_code() != 0x5c && !drive;
            &&& base.is_prefix_of(whole)
            &&& path.is_suffix_of(whole)
            &&& open_end ==> whole.len() == base.len() + 1 + path.len()
                && whole[base.len() as int].spec_code() == 0x5c
            &&& !open_end ==> whole.len() == base.len() + path.len()
        }),
{
    let style = PathStyle::Windows;
    let whole = joined(base, path, style);
    T::lemma_ascii(0x5c);
    let verbatim = seq![0x5cu32, 0x5cu32, 0x3fu32, 0x5cu32];
    if begins_verbatim(base) {
        assert(base[0].spec_code() == verbatim[0] && base[1].spec_code() == verbatim[1]
            && base[2].spec_code() == verbatim[2] && base[3].spec_code() == verbatim[3]);
    }
    assert(!is_verbatim(prefix_of(base, style)));
    assert(path =~= whole.subrange(whole.len() - path.len(), whole.len() as int));
    assert(base =~= whole.subrange(0, base.len() as int));
}

/// On Windows a path that begins with one separator replaces all of a base but its drive, if it has
/// one.
pub proof fn law_root_keeps_the_drive<T: Unit>(base: Seq<T>, path: Seq<T>)
    requires
        path.len() > 0,
        path[0].spec_code() == 0x2f || path[0].spec_code() == 0x5c,
        path.len() > 1 ==> path[1].spec_code() != 0x2f && path[1].spec_code() != 0x5c,
        base.len() > 0 ==> base[0].spec_code() != 0x2f && base[0].spec_code() != 0x5c,
    ensures
        ({
            let drive = base.len() >= 2 && base[1].spec_code() == 0x3a && (0x41
                <= base[0].spec_code() <= 0x5a || 0x61 <= base[0].spec_code() <= 0x7a);
            joined(base, path, PathStyle::Windows) == if drive {
                base.take(2) + path
            } else {
                path
            }
        }),
{
    assert(joined(base, path, PathStyle::Windows) =~= base.take(
        prefix_len(prefix_of(base, PathStyle::Windows)),
    ) + path);
    assert(base.take(0) + path =~= path);
}

/// On Windows `..` leads from a directory with a verbatim path to the one that it is in, and stays at
/// the root.
pub proof fn law_verbatim_parent(dir: Seq<u8>, name: Seq<u8>)
    requires
        is_entry_name(name, PathStyle::Windows),
        is_settled(dir, PathStyle::Windows),
        is_verbatim(prefix_of(dir, PathStyle::Windows)),
    ensures
        ({
            let style = PathStyle::Windows;
            let up = seq![0x2eu8, 0x2eu8, 0x5cu8] + name;
            let all = components(dir, style);
            let last = all.last();
            let below = last matches Component::Name(n) && n != seq![0x2eu8] && n != seq![
                0x2eu8,
                0x2eu8,
            ];
            components(joined(dir, up, style), style) == (if below {
                all.drop_last()
            } else {
                all
            }).push(Component::Name(name))
        }),
{
    let style = PathStyle::Windows;
    let dots = seq![0x2eu8, 0x2eu8];
    let up = seq![0x2eu8, 0x2eu8, 0x5cu8] + name;
    let before = names(body(dir, style), style, true);
    lemma_settled_verbatim(dir);
    assert(prefix_of(up, style) is None);
    assert(after_prefix(up, style) =~= up);
    assert(body(up, style) =~= up);
    let k = 2int;
    assert forall|i: int| k < i < up.len() implies !splits(#[trigger] up[i], style, false) by {
        assert(up[i] == name[i - 3]);
    }
    lemma_last_separator_at(up, style, false, k);
    assert(up.take(k) =~= dots);
    assert(up.skip(k + 1) =~= name);
    lemma_last_separator_at(dots, style, false, -1);
    let more = names(up, style, false);
    assert(names(dots, style, false) == kept(dots, false));
    assert(!is_dot(dots));
    assert(more == kept(dots, false) + kept(name, false));
    assert(more =~= seq![dots, name]);
    assert(more.drop_last() =~= seq![dots]);
    assert(seq![dots].drop_last() =~= seq![]);
    assert(with_names(before, seq![]) == before);
    let once = with_names(before, seq![dots]);
    let list = with_names(before, more);
    assert(list == once.push(name));
    lemma_names_are_written(body(dir, style));
    assert(is_written(name)) by {
        assert forall|j: int| 0 <= j < name.len() implies #[trigger] name[j] != 0x5c by {
            assert(!is_separator(name[j], style));
        }
    }
    assert(are_written(list));
    lemma_written_path(dir, joined(dir, up, style), list);
    let all = components(dir, style);
    let n = before.len() as int;
    assert(all.len() == 2 + n);
    if n > 0 {
        assert(all.last() == Component::Name(before.last()));
        assert(is_dot(before.last()) <==> before.last() =~= seq![0x2eu8]);
        assert(is_dot_dot(before.last()) <==> before.last() =~= dots);
    } else {
        assert(all.last() is Root);
    }
    assert(components(joined(dir, up, style), style) =~= seq![all[0], all[1]] + as_components(list));
    assert(all =~= seq![all[0], all[1]] + as_components(before));
    assert(as_components(list) =~= as_components(once).push(Component::Name(name)));
    assert(as_components(once) =~= if once == before {
        as_components(before)
    } else {
        as_components(before).drop_last()
    });
}

/// A rooted verbatim path has its prefix and its root before its names.
proof fn lemma_settled_verbatim(dir: Seq<u8>)
    requires
        is_settled(dir, PathStyle::Windows),
        is_verbatim(prefix_of(dir, PathStyle::Windows)),
    ensures
        ({
            let style = PathStyle::Windows;
            components(dir, style) == seq![
                Component::Prefix(prefix_of(dir, style)->0),
                Component::<Seq<u8>>::Root,
            ] + as_components(names(body(dir, style), style, true))
        }),
        is_rooted(dir, PathStyle::Windows),
{
    reveal(components);
    let style = PathStyle::Windows;
    assert(lead(dir, style) =~= seq![
        Component::Prefix(prefix_of(dir, style)->0),
        Component::<Seq<u8>>::Root,
    ]);
}

/// A verbatim prefix with names written behind it has just these names.
proof fn lemma_written_path(dir: Seq<u8>, path: Seq<u8>, list: Seq<Seq<u8>>)
    requires
        is_settled(dir, PathStyle::Windows),
        is_verbatim(prefix_of(dir, PathStyle::Windows)),
        list.len() > 0,
        are_written(list),
        path == dir.take(prefix_len(prefix_of(dir, PathStyle::Windows))) + written_names(list),
    ensures
        components(path, PathStyle::Windows) == seq![
            Component::Prefix(prefix_of(dir, PathStyle::Windows)->0),
            Component::<Seq<u8>>::Root,
        ] + as_components(list),
{
    reveal(components);
    let style = PathStyle::Windows;
    let n = prefix_len(prefix_of(dir, style));
    lemma_prefix_within(dir);
    let prefix = prefix_of(dir, style)->0;
    assert(after_prefix(dir, style)[0] == dir[n]);
    lemma_written_names(list);
    assert(path[n] == written_names(list)[0]);
    assert(path.take(n) =~= dir.take(n));
    lemma_same_prefix(dir, path, prefix);
    assert(after_prefix(path, style) =~= written_names(list));
    assert(lead(path, style) =~= seq![Component::Prefix(prefix), Component::<Seq<u8>>::Root]);
    assert(components(path, style) =~= seq![Component::Prefix(prefix), Component::<Seq<u8>>::Root]
        + as_components(list));
}

/// Characters and bytes are taken by their numbers, so nothing but `/` and `\` itself is one of these.
pub proof fn law_units_are_numbered(c: char, b: u8)
    ensures
        c.spec_code() == c as u32,
        b.spec_code() == b as u32,
        <char as Unit>::spec_ascii(0x2f) == '/',
        <char as Unit>::spec_ascii(0x5c) == '\\',
        <u8 as Unit>::spec_ascii(0x2f) == 0x2f,
        <u8 as Unit>::spec_ascii(0x5c) == 0x5c,
        is_separator(c, PathStyle::Unix) <==> c == '/',
        is_separator(c, PathStyle::Windows) <==> c == '/' || c == '\\',
        is_separator(b, PathStyle::Unix) <==> b == 0x2f,
        is_separator(b, PathStyle::Windows) <==> b == 0x2f || b == 0x5c,
{
}

/// A Windows path has a drive for its prefix, in either case of the letter, if and only if it begins
/// with a letter and a colon; a path that begins with neither a drive nor two separators has no prefix;
/// and no path has one on Unix.
pub proof fn law_drives<T: Unit>(path: Seq<T>)
    ensures
        prefix_of(path, PathStyle::Unix) is None,
        ({
            let code = path[0].spec_code();
            let capital = 0x41 <= code <= 0x5a;
            let small = 0x61 <= code <= 0x7a;
            let drive = path.len() >= 2 && (capital || small) && path[1].spec_code() == 0x3a;
            let prefix = prefix_of(path, PathStyle::Windows);
            &&& drive && capital ==> prefix == Some(Prefix::<Seq<T>>::Disk(code))
            &&& drive && small ==> prefix == Some(Prefix::<Seq<T>>::Disk((code - 0x20) as u32))
            &&& prefix matches Some(Prefix::Disk(_)) ==> drive && prefix_len(prefix) == 2
            &&& !drive && !(path.len() >= 2 && (code == 0x2f || code == 0x5c) && (path[1].spec_code()
                == 0x2f || path[1].spec_code() == 0x5c)) ==> prefix is None
        }),
{
}

/// A Windows path that begins with two separators, a server, a separator and a share has these for its
/// prefix, unless the server is written `.`, or `?` with no separator but `\` around it. What follows
/// the share makes no difference.
pub proof fn law_shares<T: Unit>(
    start: Seq<T>,
    server: Seq<T>,
    between: T,
    share: Seq<T>,
    rest: Seq<T>,
)
    requires
        start.len() == 2,
        is_separator(start[0], PathStyle::Windows),
        is_separator(start[1], PathStyle::Windows),
        is_separator(between, PathStyle::Windows),
        server.len() > 0,
        share.len() > 0,
        forall|i: int|
            0 <= i < server.len() ==> !is_separator(#[trigger] server[i], PathStyle::Windows),
        forall|i: int|
            0 <= i < share.len() ==> !is_separator(#[trigger] share[i], PathStyle::Windows),
        rest.len() > 0 ==> is_separator(rest[0], PathStyle::Windows),
        !(server.len() == 1 && server[0].spec_code() == 0x2e),
        !(server.len() == 1 && server[0].spec_code() == 0x3f && start[0].spec_code() == 0x5c
            && start[1].spec_code() == 0x5c && between.spec_code() == 0x5c),
    ensures
        ({
            let path = start + server + seq![between] + share + rest;
            &&& prefix_of(path, PathStyle::Windows) == Some(Prefix::Unc(server, share))
            &&& prefix_len(prefix_of(path, PathStyle::Windows)) == 3 + server.len() + share.len()
        }),
{
    let style = PathStyle::Windows;
    let path = start + server + seq![between] + share + rest;
    let k = server.len() as int;
    let m = share.len() as int;
    let x = path.skip(2);
    assert(path[0] == start[0] && path[1] == start[1]);
    assert(x[k] == between);
    assert forall|i: int| 0 <= i < k implies !splits(#[trigger] x[i], style, false) by {
        assert(x[i] == server[i]);
    }
    lemma_first_separator_at(x, style, false, k);
    assert(first_piece(x, false) =~= server);
    let y = after_piece(x, false);
    assert(y =~= share + rest);
    assert forall|i: int| 0 <= i < m implies !splits(#[trigger] y[i], style, false) by {
        assert(y[i] == share[i]);
    }
    assert(rest.len() > 0 ==> y[m] == rest[0]);
    lemma_first_separator_at(y, style, false, m);
    assert(first_piece(y, false) =~= share);
    assert(path[2] == server[0]);
    assert(k > 1 ==> path[3] == server[1]);
    let verbatim = seq![0x5cu32, 0x5cu32, 0x3fu32, 0x5cu32];
    assert(k == 1 ==> path[3] == between);
    if begins_verbatim(path) {
        assert(path[0].spec_code() == verbatim[0] && path[1].spec_code() == verbatim[1]);
        assert(path[2].spec_code() == verbatim[2] && path[3].spec_code() == verbatim[3]);
    }
}

/// A Windows path that begins with two separators, a dot and a separator has for its prefix the device
/// whose name follows up to the next separator.
pub proof fn law_devices<T: Unit>(start: Seq<T>, device: Seq<T>, rest: Seq<T>)
    requires
        start.len() == 4,
        is_separator(start[0], PathStyle::Windows),
        is_separator(start[1], PathStyle::Windows),
        start[2].spec_code() == 0x2e,
        is_separator(start[3], PathStyle::Windows),
        forall|i: int|
            0 <= i < device.len() ==> !is_separator(#[trigger] device[i], PathStyle::Windows),
        rest.len() > 0 ==> is_separator(rest[0], PathStyle::Windows),
    ensures
        prefix_of(start + device + rest, PathStyle::Windows) == Some(Prefix::Device(device)),
        prefix_len(Some(Prefix::Device(device))) == 4 + device.len(),
{
    let style = PathStyle::Windows;
    let path = start + device + rest;
    let k = device.len() as int;
    let x = path.skip(4);
    assert(path[0] == start[0] && path[1] == start[1] && path[2] == start[2] && path[3] == start[3]);
    assert(x =~= device + rest);
    assert forall|i: int| 0 <= i < k implies !splits(#[trigger] x[i], style, false) by {
        assert(x[i] == device[i]);
    }
    assert(rest.len() > 0 ==> x[k] == rest[0]);
    lemma_first_separator_at(x, style, false, k);
    assert(first_piece(x, false) =~= device);
    let verbatim = seq![0x5cu32, 0x5cu32, 0x3fu32, 0x5cu32];
    if begins_verbatim(path) {
        assert(path[2].spec_code() == verbatim[2]);
    }
}

/// A Windows path that begins with two separators and a server, or with three separators, but names no
/// share, has no prefix, unless the server is written `.`, or `?` with no separator but `\` around it.
pub proof fn law_shares_are_named<T: Unit>(start: Seq<T>, server: Seq<T>, rest: Seq<T>)
    requires
        start.len() == 2,
        is_separator(start[0], PathStyle::Windows),
        is_separator(start[1], PathStyle::Windows),
        forall|i: int|
            0 <= i < server.len() ==> !is_separator(#[trigger] server[i], PathStyle::Windows),
        rest.len() > 0 ==> is_separator(rest[0], PathStyle::Windows),
        server.len() == 0 || rest.len() < 2 || is_separator(rest[1], PathStyle::Windows),
        rest.len() > 0 ==> !(server.len() == 1 && server[0].spec_code() == 0x2e),
        rest.len() > 0 ==> !(server.len() == 1 && server[0].spec_code() == 0x3f && start[0].spec_code()
            == 0x5c && start[1].spec_code() == 0x5c && rest[0].spec_code() == 0x5c),
    ensures
        prefix_of(start + server + rest, PathStyle::Windows) is None,
{
    let style = PathStyle::Windows;
    let path = start + server + rest;
    let k = server.len() as int;
    let x = path.skip(2);
    assert(path[0] == start[0] && path[1] == start[1]);
    assert(x =~= server + rest);
    assert forall|i: int| 0 <= i < k implies !splits(#[trigger] x[i], style, false) by {
        assert(x[i] == server[i]);
    }
    assert(rest.len() > 0 ==> x[k] == rest[0]);
    lemma_first_separator_at(x, style, false, k);
    assert(first_piece(x, false) =~= server);
    let y = after_piece(x, false);
    assert(rest.len() > 0 ==> y =~= rest.skip(1));
    if k > 0 {
        assert(y.len() > 0 ==> y[0] == rest[1]);
        lemma_first_separator_at(y, style, false, 0);
        assert(first_piece(y, false).len() == 0);
    }
    assert(k > 0 ==> path[2] == server[0]);
    assert(k > 1 ==> path[3] == server[1]);
    assert(k == 0 && rest.len() > 0 ==> path[2] == rest[0]);
    assert(k == 1 && rest.len() > 0 ==> path[3] == rest[0]);
    let verbatim = seq![0x5cu32, 0x5cu32, 0x3fu32, 0x5cu32];
    if begins_verbatim(path) {
        assert(path[0].spec_code() == verbatim[0] && path[1].spec_code() == verbatim[1]);
        assert(path[2].spec_code() == verbatim[2] && path[3].spec_code() == verbatim[3]);
    }
}

/// A Windows path that begins with `\\?\UNC\`, a server, a `\` and a share has these for its prefix; where
/// no share follows, the server alone.
pub proof fn law_verbatim_shares<T: Unit>(path: Seq<T>, server: Seq<T>, share: Seq<T>, rest: Seq<T>)
    requires
        path.len() >= 8,
        path[0].spec_code() == 0x5c,
        path[1].spec_code() == 0x5c,
        path[2].spec_code() == 0x3f,
        path[3].spec_code() == 0x5c,
        path[4].spec_code() == 0x55,
        path[5].spec_code() == 0x4e,
        path[6].spec_code() == 0x43,
        path[7].spec_code() == 0x5c,
        forall|i: int| 0 <= i < server.len() ==> (#[trigger] server[i]).spec_code() != 0x5c,
        forall|i: int| 0 <= i < share.len() ==> (#[trigger] share[i]).spec_code() != 0x5c,
        rest.len() > 0 ==> rest[0].spec_code() == 0x5c,
    ensures
        path.skip(8) == server ==> prefix_of(path, PathStyle::Windows) == Some(
            Prefix::VerbatimUnc(server, seq![]),
        ),
        forall|c: T|
            c.spec_code() == 0x5c && path.skip(8) == #[trigger] server.push(c) + share + rest
                ==> prefix_of(path, PathStyle::Windows) == Some(Prefix::VerbatimUnc(server, share)),
        prefix_len(Some(Prefix::VerbatimUnc(server, share))) == 8 + server.len() + (if share.len() > 0 {
            1 + share.len()
        } else {
            0
        }),
{
    let style = PathStyle::Windows;
    let tail = path.skip(4);
    let whole = path.skip(8);
    let k = server.len() as int;
    let m = share.len() as int;
    assert(tail.skip(4) =~= whole);
    law_verbatim_prefixes(path, seq![], seq![]);
    lemma_begins_unc(path);
    if whole == server {
        assert forall|i: int| 0 <= i < k implies !splits(#[trigger] whole[i], style, true) by {
            assert(whole[i] == server[i]);
        }
        lemma_first_separator_at(whole, style, true, k);
        assert(first_piece(whole, true) =~= server);
        let none = Seq::<T>::empty();
        assert(after_piece(whole, true) =~= none);
        lemma_first_separator_at(none, style, true, 0);
        assert(first_piece(none, true) =~= none);
    }
    assert forall|c: T|
        c.spec_code() == 0x5c && whole == #[trigger] server.push(c) + share + rest implies prefix_of(
        path,
        style,
    ) == Some(Prefix::VerbatimUnc(server, share)) by {
        assert(whole[k] == c);
        assert forall|i: int| 0 <= i < k implies !splits(#[trigger] whole[i], style, true) by {
            assert(whole[i] == server[i]);
        }
        lemma_first_separator_at(whole, style, true, k);
        assert(first_piece(whole, true) =~= server);
        let y = after_piece(whole, true);
        assert(y =~= share + rest);
        assert forall|i: int| 0 <= i < m implies !splits(#[trigger] y[i], style, true) by {
            assert(y[i] == share[i]);
        }
        assert(rest.len() > 0 ==> y[m] == rest[0]);
        lemma_first_separator_at(y, style, true, m);
        assert(first_piece(y, true) =~= share);
    }
}

proof fn lemma_begins_unc<T: Unit>(path: Seq<T>)
    requires
        path.len() >= 8,
        path[0].spec_code() == 0x5c,
        path[1].spec_code() == 0x5c,
        path[2].spec_code() == 0x3f,
        path[3].spec_code() == 0x5c,
        path[4].spec_code() == 0x55,
        path[5].spec_code() == 0x4e,
        path[6].spec_code() == 0x43,
        path[7].spec_code() == 0x5c,
    ensures
        prefix_of(path, PathStyle::Windows) == Some(verbatim_prefix(path.skip(4))),
        begins(path.skip(4), seq![0x55u32, 0x4eu32, 0x43u32, 0x5cu32]),
{
    let tail = path.skip(4);
    let verbatim = seq![0x5cu32, 0x5cu32, 0x3fu32, 0x5cu32];
    let unc = seq![0x55u32, 0x4eu32, 0x43u32, 0x5cu32];
    assert(begins_verbatim(path)) by {
        assert forall|i: int| 0 <= i < 4 implies (#[trigger] path[i]).spec_code() == verbatim[i] by {}
    }
    assert forall|i: int| 0 <= i < 4 implies (#[trigger] tail[i]).spec_code() == unc[i] by {
        assert(tail[i] == path[i + 4]);
    }
}

/// A Windows path that begins with `\\?\` has a verbatim prefix: of a share where `UNC\` follows, of a
/// disk where a letter and a colon follow and then a separator or nothing, and else of what follows up
/// to the next `\`.
pub proof fn law_verbatim_prefixes<T: Unit>(path: Seq<T>, piece: Seq<T>, rest: Seq<T>)
    requires
        path.len() >= 4,
        path[0].spec_code() == 0x5c,
        path[1].spec_code() == 0x5c,
        path[2].spec_code() == 0x3f,
        path[3].spec_code() == 0x5c,
        forall|i: int| 0 <= i < piece.len() ==> (#[trigger] piece[i]).spec_code() != 0x5c,
        rest.len() > 0 ==> rest[0].spec_code() == 0x5c,
    ensures
        is_verbatim(prefix_of(path, PathStyle::Windows)),
        ({
            let tail = path.skip(4);
            let prefix = prefix_of(path, PathStyle::Windows);
            let unc = tail.len() >= 4 && tail[0].spec_code() == 0x55 && tail[1].spec_code() == 0x4e
                && tail[2].spec_code() == 0x43 && tail[3].spec_code() == 0x5c;
            let code = tail[0].spec_code();
            let disk = tail.len() >= 2 && (0x41 <= code <= 0x5a || 0x61 <= code <= 0x7a)
                && tail[1].spec_code() == 0x3a
                && (tail.len() == 2 || is_separator(tail[2], PathStyle::Windows));
            &&& (prefix is Some && prefix->0 is VerbatimUnc) <==> unc
            &&& (prefix is Some && prefix->0 is VerbatimDisk) <==> disk
            &&& disk && 0x41 <= tail[0].spec_code() <= 0x5a ==> prefix->0->VerbatimDisk_0
                == tail[0].spec_code()
            &&& disk && 0x61 <= tail[0].spec_code() <= 0x7a ==> prefix->0->VerbatimDisk_0
                == tail[0].spec_code() - 0x20
            &&& disk ==> prefix_len(prefix) == 6
            &&& prefix_len(Some(Prefix::Verbatim(piece))) == 4 + piece.len()
            &&& !unc && !disk && tail == piece + rest ==> prefix == Some(Prefix::Verbatim(piece))
            &&& unc && tail.skip(4) == piece + rest ==> prefix->0->VerbatimUnc_0 == piece
        }),
{
    let style = PathStyle::Windows;
    let tail = path.skip(4);
    let whole = piece + rest;
    let k = piece.len() as int;
    let verbatim = seq![0x5cu32, 0x5cu32, 0x3fu32, 0x5cu32];
    assert(begins_verbatim(path)) by {
        assert forall|i: int| 0 <= i < 4 implies (#[trigger] path[i]).spec_code() == verbatim[i] by {}
    }
    let unc = seq![0x55u32, 0x4eu32, 0x43u32, 0x5cu32];
    if begins(tail, unc) {
        assert(tail[0].spec_code() == unc[0] && tail[1].spec_code() == unc[1] && tail[2].spec_code()
            == unc[2] && tail[3].spec_code() == unc[3]);
    } else if tail.len() >= 4 && tail[0].spec_code() == 0x55 && tail[1].spec_code() == 0x4e
        && tail[2].spec_code() == 0x43 && tail[3].spec_code() == 0x5c {
        assert forall|i: int| 0 <= i < 4 implies (#[trigger] tail[i]).spec_code() == unc[i] by {}
    }
    assert forall|i: int| 0 <= i < k implies !splits(#[trigger] whole[i], style, true) by {
        assert(whole[i] == piece[i]);
    }
    assert(rest.len() > 0 ==> whole[k] == rest[0]);
    lemma_first_separator_at(whole, style, true, k);
    assert(first_piece(whole, true) =~= piece);
}

/// On Windows a path with a prefix, such as any that begins with `\\?\`, stands for itself, whatever it
/// is joined to; one that only begins with a separator keeps the prefix of a base that is not verbatim,
/// and nothing else of it.
pub proof fn law_windows_roots<T: Unit>(base: Seq<T>, path: Seq<T>)
    ensures
        path.len() >= 4 && path[0].spec_code() == 0x5c && path[1].spec_code() == 0x5c
            && path[2].spec_code() == 0x3f && path[3].spec_code() == 0x5c ==> joined(
            base,
            path,
            PathStyle::Windows,
        ) == path,
        prefix_of(path, PathStyle::Windows) is Some ==> joined(base, path, PathStyle::Windows) == path,
        path.len() > 0 && (path[0].spec_code() == 0x5c || path[0].spec_code() == 0x2f) && prefix_of(
            path,
            PathStyle::Windows,
        ) is None && !is_verbatim(prefix_of(base, PathStyle::Windows)) ==> joined(
            base,
            path,
            PathStyle::Windows,
        ) == base.take(prefix_len(prefix_of(base, PathStyle::Windows))) + path,
{
    if path.len() >= 4 && path[0].spec_code() == 0x5c && path[1].spec_code() == 0x5c
        && path[2].spec_code() == 0x3f && path[3].spec_code() == 0x5c {
        law_verbatim_prefixes(path, seq![], seq![]);
    }
}

/// An empty path that is joined to a base at most ends it in a separator: one is added unless the base
/// is empty, ends in one, or on Windows is a drive and nothing more.
pub proof fn law_empty_path_ends_the_base<T: Unit>(base: Seq<T>, path: Seq<T>, style: PathStyle)
    requires
        path.len() == 0,
    ensures
        ({
            let whole = joined(base, path, style);
            let drive = style is Windows && base.len() == 2 && begins_with_drive(base);
            let open_end = base.len() > 0 && !is_separator(base.last(), style) && !drive;
            &&& base.is_prefix_of(whole)
            &&& whole.len() == base.len() + (if open_end {
                1int
            } else {
                0
            })
            &&& open_end ==> is_separator(whole.last(), style)
            &&& open_end && style is Windows ==> whole.last().spec_code() == 0x5c
        }),
{
    let whole = joined(base, path, style);
    T::lemma_ascii(0x2f);
    T::lemma_ascii(0x5c);
    assert(base =~= whole.subrange(0, base.len() as int));
}

/// On Windows the components of a path are, behind its prefix, the names between its separators, with
/// the root before them where a separator follows the prefix or begins the path. What is empty is no
/// component, and neither is `.` behind a separator; but behind a verbatim prefix and the root only `\`
/// separates, and `.` counts.
pub proof fn law_windows_components(before: Seq<u8>, c: u8, piece: Seq<u8>)
    requires
        prefix_of(before.push(c) + piece, PathStyle::Windows) == prefix_of(before, PathStyle::Windows),
        c == 0x5c || c == 0x2f,
        c == 0x2f && is_verbatim(prefix_of(before, PathStyle::Windows)) ==> before.len() == prefix_len(
            prefix_of(before, PathStyle::Windows),
        ),
        forall|i: int| 0 <= i < piece.len() ==> #[trigger] piece[i] != 0x5c,
        !is_verbatim(prefix_of(before, PathStyle::Windows)) ==> forall|i: int|
            0 <= i < piece.len() ==> #[trigger] piece[i] != 0x2f,
    ensures
        ({
            let style = PathStyle::Windows;
            let prefix = prefix_of(before, style);
            let alone = before.len() == prefix_len(prefix);
            let dropped = piece.len() == 0 || (piece == seq![0x2eu8] && !is_verbatim(prefix));
            components(before.push(c) + piece, style) == (if !alone {
                components(before, style)
            } else if prefix is Some {
                seq![Component::Prefix(prefix->0), Component::Root]
            } else {
                seq![Component::Root]
            }) + (if dropped {
                Seq::<Component<Seq<u8>>>::empty()
            } else {
                seq![Component::Name(piece)]
            })
        }),
{
    let style = PathStyle::Windows;
    let prefix = prefix_of(before, style);
    let verbatim = is_verbatim(prefix);
    let other = kept(piece, verbatim);
    lemma_prefix_within(before);
    lemma_kept(piece, verbatim);
    lemma_names_behind(body(before, style), 0x5c, piece, style, verbatim);
    if before.len() == prefix_len(prefix) {
        lemma_windows_root(before, c, piece);
    } else {
        lemma_names_behind(body(before, style), c, piece, style, verbatim);
        lemma_windows_body(before, c, piece);
        lemma_windows_lead(before, c, piece);
        lemma_components_grow(before, before.push(c) + piece, other, style);
    }
}

/// What a piece between two separators adds to the components.
proof fn lemma_kept(piece: Seq<u8>, verbatim: bool)
    ensures
        as_components(kept(piece, verbatim)) == if piece.len() == 0 || (piece == seq![0x2eu8]
            && !verbatim) {
            Seq::<Component<Seq<u8>>>::empty()
        } else {
            seq![Component::Name(piece)]
        },
{
    assert(is_dot(piece) <==> piece =~= seq![0x2eu8]);
    assert(as_components(kept(piece, verbatim)) =~= if piece.len() == 0 || (piece == seq![0x2eu8]
        && !verbatim) {
        Seq::<Component<Seq<u8>>>::empty()
    } else {
        seq![Component::Name(piece)]
    });
}

/// The names of a path with a separator and a piece behind it.
proof fn lemma_names_behind(front: Seq<u8>, c: u8, piece: Seq<u8>, style: PathStyle, verbatim: bool)
    requires
        splits(c, style, verbatim),
        forall|i: int|
            0 <= i < piece.len() ==> !splits(#[trigger] piece[i], style, verbatim),
    ensures
        names(piece, style, verbatim) == kept(piece, verbatim),
        names(front.push(c) + piece, style, verbatim) == names(
            front,
            style,
            verbatim,
        ) + kept(piece, verbatim),
{
    let inner = front.push(c) + piece;
    let k = front.len() as int;
    lemma_last_separator_at(piece, style, verbatim, -1);
    assert(inner[k] == c);
    assert forall|i: int| k < i < inner.len() implies !splits(
        #[trigger] inner[i],
        style,
        verbatim,
    ) by {
        assert(inner[i] == piece[i - k - 1]);
    }
    lemma_last_separator_at(inner, style, verbatim, k);
    assert(inner.take(k) =~= front);
    assert(inner.skip(k + 1) =~= piece);
}

/// A prefix, or nothing, with a separator and a piece behind it.
proof fn lemma_windows_root(before: Seq<u8>, c: u8, piece: Seq<u8>)
    requires
        prefix_of(before.push(c) + piece, PathStyle::Windows) == prefix_of(before, PathStyle::Windows),
        prefix_len(prefix_of(before, PathStyle::Windows)) == before.len(),
        is_separator(c, PathStyle::Windows),
        ({
            let verbatim = is_verbatim(prefix_of(before, PathStyle::Windows));
            names(piece, PathStyle::Windows, verbatim) == kept(piece, verbatim)
        }),
    ensures
        ({
            let prefix = prefix_of(before, PathStyle::Windows);
            components(before.push(c) + piece, PathStyle::Windows) == (if prefix is Some {
                seq![Component::Prefix(prefix->0), Component::Root]
            } else {
                seq![Component::Root]
            }) + as_components(kept(piece, is_verbatim(prefix)))
        }),
{
    reveal(components);
    let style = PathStyle::Windows;
    let path = before.push(c) + piece;
    let prefix = prefix_of(before, style);
    let n = prefix_len(prefix);
    assert(path[n] == c);
    assert(after_prefix(path, style)[0] == c);
    assert(body(path, style) =~= piece);
    assert(lead(path, style) =~= if prefix is Some {
        seq![Component::Prefix(prefix->0), Component::Root]
    } else {
        seq![Component::Root]
    });
}

/// What stands behind the prefix and the root of a Windows path grows at its end.
proof fn lemma_windows_body(before: Seq<u8>, c: u8, piece: Seq<u8>)
    requires
        prefix_of(before.push(c) + piece, PathStyle::Windows) == prefix_of(before, PathStyle::Windows),
        0 <= prefix_len(prefix_of(before, PathStyle::Windows)) < before.len(),
    ensures
        body(before.push(c) + piece, PathStyle::Windows) == body(before, PathStyle::Windows).push(c)
            + piece,
{
    let style = PathStyle::Windows;
    let path = before.push(c) + piece;
    let n = prefix_len(prefix_of(before, style));
    assert(after_prefix(path, style)[0] == path[n]);
    assert(after_prefix(before, style)[0] == before[n]);
    assert(path[n] == before[n]);
    assert(body(path, style) =~= body(before, style).push(c) + piece);
}

/// Where the lead stays and names are added, components are added.
proof fn lemma_components_grow(before: Seq<u8>, path: Seq<u8>, more: Seq<Seq<u8>>, style: PathStyle)
    requires
        prefix_of(path, style) == prefix_of(before, style),
        lead(path, style) == lead(before, style),
        ({
            let verbatim = is_verbatim(prefix_of(before, style));
            names(body(path, style), style, verbatim) == names(
                body(before, style),
                style,
                verbatim,
            ) + more
        }),
    ensures
        components(path, style) == components(before, style) + as_components(
            more,
        ),
{
    reveal(components);
    let one = names(body(before, style), style, is_verbatim(prefix_of(before, style)));
    assert(as_components(one + more) =~= as_components(one) + as_components(more));
    assert(components(path, style) =~= components(before, style) + as_components(more));
}

proof fn lemma_windows_lead(before: Seq<u8>, c: u8, piece: Seq<u8>)
    requires
        prefix_of(before.push(c) + piece, PathStyle::Windows) == prefix_of(before, PathStyle::Windows),
        0 <= prefix_len(prefix_of(before, PathStyle::Windows)) < before.len(),
        is_separator(c, PathStyle::Windows),
    ensures
        lead(before.push(c) + piece, PathStyle::Windows) == lead(before, PathStyle::Windows),
{
    let style = PathStyle::Windows;
    let path = before.push(c) + piece;
    let n = prefix_len(prefix_of(before, style));
    assert(after_prefix(path, style)[0] == path[n]);
    assert(after_prefix(before, style)[0] == before[n]);
    assert(path[n] == before[n]);
    assert(path[0] == before[0]);
    assert(before.len() > 1 ==> path[1] == before[1]);
    assert(before.len() == 1 ==> path[1] == c);
    assert(path.take(1) =~= before.take(1));
}

/// A Windows path without separators is one name, behind its drive where it has one; a prefix alone is
/// a component, and that of a share or a device implies the root.
pub proof fn law_windows_pieces(path: Seq<u8>, drive: Seq<u8>, piece: Seq<u8>)
    requires
        forall|i: int| 0 <= i < piece.len() ==> #[trigger] piece[i] != 0x5c && piece[i] != 0x2f,
        prefix_of(piece, PathStyle::Windows) is None,
        drive.len() == 2,
        begins_with_drive(drive),
    ensures
        components(piece, PathStyle::Windows) == if piece.len() == 0 {
            Seq::<Component<Seq<u8>>>::empty()
        } else {
            seq![Component::Name(piece)]
        },
        components(drive + piece, PathStyle::Windows) == seq![
            Component::Prefix(prefix_of(drive, PathStyle::Windows)->0),
        ] + (if piece.len() == 0 || piece == seq![0x2eu8] {
            Seq::<Component<Seq<u8>>>::empty()
        } else {
            seq![Component::Name(piece)]
        }),
        ({
            let prefix = prefix_of(path, PathStyle::Windows);
            prefix is Some && path.len() == prefix_len(prefix) ==> components(path, PathStyle::Windows)
                == if prefix->0 is Unc || prefix->0 is Device {
                seq![Component::Prefix(prefix->0), Component::Root]
            } else {
                seq![Component::Prefix(prefix->0)]
            }
        }),
{
    reveal(components);
    let style = PathStyle::Windows;
    assert(is_dot(piece) <==> piece =~= seq![0x2eu8]);
    lemma_last_separator_at(piece, style, false, -1);
    assert(after_prefix(piece, style) =~= piece);
    assert(is_dot(piece) ==> piece.take(1) =~= piece);
    assert(piece.len() > 1 ==> !is_separator(piece[1], style));
    assert(components(piece, style) =~= if piece.len() == 0 {
        Seq::<Component<Seq<u8>>>::empty()
    } else {
        seq![Component::Name(piece)]
    });
    let whole = drive + piece;
    assert(whole[0] == drive[0] && whole[1] == drive[1]);
    assert(prefix_of(whole, style) == prefix_of(drive, style));
    assert(after_prefix(whole, style) =~= piece);
    assert(components(whole, style) =~= seq![Component::Prefix(prefix_of(drive, style)->0)]
        + as_components(kept(piece, false)));
    assert(as_components(kept(piece, false)) =~= if piece.len() == 0 || piece == seq![0x2eu8] {
        Seq::<Component<Seq<u8>>>::empty()
    } else {
        seq![Component::Name(piece)]
    });
    let prefix = prefix_of(path, style);
    if prefix is Some && path.len() == prefix_len(prefix) {
        let empty = Seq::<u8>::empty();
        assert(after_prefix(path, style) =~= empty);
        lemma_last_separator_at(empty, style, false, -1);
        lemma_last_separator_at(empty, style, true, -1);
        assert(names(empty, style, is_verbatim(prefix)) =~= seq![]);
        assert(components(path, style) =~= lead(path, style));
    }
}

/// Where a name leads from a path with these components: `.` and nothing to itself, `..` to what it is
/// in, as far as that is given by a name, and any other name to the entry of that name.
pub open spec fn led_to(all: Seq<Component<Seq<u8>>>, name: Seq<u8>) -> Seq<Component<Seq<u8>>> {
    let dot = seq![0x2eu8];
    let dots = seq![0x2eu8, 0x2eu8];
    if name.len() == 0 || name == dot {
        all
    } else if name != dots {
        all.push(Component::Name(name))
    } else {
        match all.last() {
            Component::Name(last) if last != dot && last != dots => all.drop_last(),
            _ => all,
        }
    }
}

/// To a verbatim path others are joined name by name: a path leads where its last name leads from where
/// the rest of it leads; one name leads there from the base; and a separator alone leads to the root.
pub proof fn law_verbatim_join_goes_name_by_name(base: Seq<u8>, path: Seq<u8>, c: u8, name: Seq<u8>)
    requires
        is_settled(base, PathStyle::Windows),
        is_verbatim(prefix_of(base, PathStyle::Windows)),
        c == 0x5c || c == 0x2f,
        forall|i: int| 0 <= i < name.len() ==> #[trigger] name[i] != 0x5c && name[i] != 0x2f,
        prefix_of(name, PathStyle::Windows) is None,
        prefix_of(path, PathStyle::Windows) is None,
        prefix_of(path.push(c) + name, PathStyle::Windows) is None,
    ensures
        ({
            let style = PathStyle::Windows;
            let from_base = components(joined(base, path, style), style);
            &&& path.len() > 0 ==> components(joined(base, path.push(c) + name, style), style) == led_to(
                from_base,
                name,
            )
            &&& name.len() > 0 ==> components(joined(base, name, style), style) == led_to(
                components(base, style),
                name,
            )
            &&& components(joined(base, seq![c], style), style) == seq![
                Component::Prefix(prefix_of(base, style)->0),
                Component::Root,
            ]
        }),
{
    let style = PathStyle::Windows;
    lemma_verbatim_root(base, c);
    lemma_names_behind(body(path, style), c, name, style, false);
    if name.len() > 0 {
        lemma_verbatim_name(base, name);
    }
    if path.len() > 0 {
        lemma_verbatim_further(base, path, c, name);
    }
}

proof fn lemma_verbatim_root(base: Seq<u8>, c: u8)
    requires
        is_settled(base, PathStyle::Windows),
        is_verbatim(prefix_of(base, PathStyle::Windows)),
        c == 0x5c || c == 0x2f,
    ensures
        components(joined(base, seq![c], PathStyle::Windows), PathStyle::Windows) == seq![
            Component::Prefix(prefix_of(base, PathStyle::Windows)->0),
            Component::<Seq<u8>>::Root,
        ],
{
    let style = PathStyle::Windows;
    let root = seq![Component::Prefix(prefix_of(base, style)->0), Component::<Seq<u8>>::Root];
    let empty = Seq::<u8>::empty();
    assert(prefix_of(seq![c], style) is None);
    lemma_verbatim_list(base, seq![c]);
    assert(after_prefix(seq![c], style) =~= seq![c]);
    assert(body(seq![c], style) =~= empty);
    lemma_last_separator_at(empty, style, false, -1);
    assert(names(empty, style, false) =~= seq![]);
    assert(with_names(Seq::<Seq<u8>>::empty(), seq![]) =~= seq![]);
    assert(root + as_components(Seq::<Seq<u8>>::empty()) =~= root);
}

proof fn lemma_verbatim_name(base: Seq<u8>, name: Seq<u8>)
    requires
        is_settled(base, PathStyle::Windows),
        is_verbatim(prefix_of(base, PathStyle::Windows)),
        prefix_of(name, PathStyle::Windows) is None,
        name.len() > 0,
        !is_separator(name[0], PathStyle::Windows),
        names(name, PathStyle::Windows, false) == kept(name, false),
    ensures
        components(joined(base, name, PathStyle::Windows), PathStyle::Windows) == led_to(
            components(base, PathStyle::Windows),
            name,
        ),
{
    let style = PathStyle::Windows;
    let root = seq![Component::Prefix(prefix_of(base, style)->0), Component::<Seq<u8>>::Root];
    let before = names(body(base, style), style, true);
    let more = kept(name, false);
    lemma_settled_verbatim(base);
    assert(after_prefix(name, style) =~= name);
    assert(body(name, style) =~= name);
    lemma_verbatim_list(base, name);
    lemma_led_to(root, before, seq![], name);
    assert(Seq::<Seq<u8>>::empty() + more =~= more);
    assert(with_names(before, seq![]) == before);
}

proof fn lemma_verbatim_further(base: Seq<u8>, path: Seq<u8>, c: u8, name: Seq<u8>)
    requires
        is_settled(base, PathStyle::Windows),
        is_verbatim(prefix_of(base, PathStyle::Windows)),
        prefix_of(path, PathStyle::Windows) is None,
        prefix_of(path.push(c) + name, PathStyle::Windows) is None,
        path.len() > 0,
        names(body(path, PathStyle::Windows).push(c) + name, PathStyle::Windows, false) == names(
            body(path, PathStyle::Windows),
            PathStyle::Windows,
            false,
        ) + kept(name, false),
    ensures
        components(joined(base, path.push(c) + name, PathStyle::Windows), PathStyle::Windows) == led_to(
            components(joined(base, path, PathStyle::Windows), PathStyle::Windows),
            name,
        ),
{
    let style = PathStyle::Windows;
    let root = seq![Component::Prefix(prefix_of(base, style)->0), Component::<Seq<u8>>::Root];
    let whole = path.push(c) + name;
    lemma_verbatim_list(base, path);
    lemma_verbatim_list(base, whole);
    lemma_windows_body(path, c, name);
    assert(after_prefix(path, style)[0] == path[0]);
    assert(after_prefix(whole, style)[0] == whole[0]);
    assert(whole[0] == path[0]);
    let start = if is_rooted(path, style) {
        seq![]
    } else {
        names(body(base, style), style, true)
    };
    lemma_led_to(root, start, names(body(path, style), style, false), name);
}

/// Where a name leads, by the list of names.
proof fn lemma_led_to(
    root: Seq<Component<Seq<u8>>>,
    before: Seq<Seq<u8>>,
    more: Seq<Seq<u8>>,
    name: Seq<u8>,
)
    requires
        root.len() == 2,
        root[1] is Root,
    ensures
        root + as_components(with_names(before, more + kept(name, false))) == led_to(
            root + as_components(with_names(before, more)),
            name,
        ),
{
    let list = with_names(before, more);
    let all = root + as_components(list);
    assert(is_dot(name) <==> name =~= seq![0x2eu8]);
    assert(is_dot_dot(name) <==> name =~= seq![0x2eu8, 0x2eu8]);
    if name.len() == 0 || is_dot(name) {
        assert(more + kept(name, false) =~= more);
    } else {
        let both = more + kept(name, false);
        assert(both.drop_last() =~= more);
        assert(both.last() == name);
        let longer = with_names(before, both);
        assert(longer == with_name(list, name));
        if list.len() > 0 {
            assert(all.last() == Component::Name(list.last()));
            assert(is_dot(list.last()) <==> list.last() =~= seq![0x2eu8]);
            assert(is_dot_dot(list.last()) <==> list.last() =~= seq![0x2eu8, 0x2eu8]);
        } else {
            assert(all.last() is Root);
        }
        assert(root + as_components(longer) =~= led_to(all, name));
    }
}

/// The components of a path that was joined to a verbatim one, by the list of names.
proof fn lemma_verbatim_list(base: Seq<u8>, path: Seq<u8>)
    requires
        is_settled(base, PathStyle::Windows),
        is_verbatim(prefix_of(base, PathStyle::Windows)),
        prefix_of(path, PathStyle::Windows) is None,
        path.len() > 0,
    ensures
        ({
            let style = PathStyle::Windows;
            let before = if is_rooted(path, style) {
                seq![]
            } else {
                names(body(base, style), style, true)
            };
            components(joined(base, path, style), style) == seq![
                Component::Prefix(prefix_of(base, style)->0),
                Component::<Seq<u8>>::Root,
            ] + as_components(with_names(before, names(body(path, style), style, false)))
        }),
{
    let style = PathStyle::Windows;
    let whole = joined(base, path, style);
    let before = if is_rooted(path, style) {
        seq![]
    } else {
        names(body(base, style), style, true)
    };
    let more = names(body(path, style), style, false);
    let list = with_names(before, more);
    lemma_settled_verbatim(base);
    lemma_names_are_written(body(base, style));
    lemma_plain_names_are_written(body(path, style));
    lemma_with_names_are_written(before, more);
    let n = prefix_len(prefix_of(base, style));
    lemma_prefix_within(base);
    u8::lemma_ascii(0x5c);
    if list.len() > 0 {
        lemma_written_path(base, whole, list);
    } else {
        reveal(components);
        let prefix = prefix_of(base, style)->0;
        assert(whole == base.take(n).push(0x5c));
        assert(after_prefix(base, style)[0] == base[n]);
        assert(whole.take(n) =~= base.take(n));
        lemma_same_prefix(base, whole, prefix);
        assert(after_prefix(whole, style)[0] == 0x5c);
        let empty = Seq::<u8>::empty();
        assert(body(whole, style) =~= empty);
        lemma_last_separator_at(empty, style, true, -1);
        assert(names(empty, style, true) =~= seq![]);
        assert(lead(whole, style) =~= seq![Component::Prefix(prefix), Component::<Seq<u8>>::Root]);
        assert(as_components(list) =~= seq![]);
        assert(components(whole, style) =~= seq![
            Component::Prefix(prefix),
            Component::<Seq<u8>>::Root,
        ] + as_components(list));
    }
}

proof fn lemma_plain_names_are_written(path: Seq<u8>)
    ensures
        are_written(names(path, PathStyle::Windows, false)),
    decreases path.len(),
{
    let style = PathStyle::Windows;
    let k = last_separator(path, style, false);
    lemma_last_separator_within(path, style, false);
    lemma_no_plain_separator_behind(path);
    if k >= 0 {
        lemma_plain_names_are_written(path.take(k));
    }
}

proof fn lemma_no_plain_separator_behind(path: Seq<u8>)
    ensures
        forall|i: int|
            last_separator(path, PathStyle::Windows, false) < i < path.len() ==> #[trigger] path[i]
                != 0x5c,
    decreases path.len(),
{
    let style = PathStyle::Windows;
    if path.len() > 0 && !is_separator(path.last(), style) {
        lemma_no_plain_separator_behind(path.drop_last());
        lemma_last_separator_within(path.drop_last(), style, false);
        assert forall|i: int| last_separator(path, style, false) < i < path.len() implies #[trigger] path[i]
            != 0x5c by {
            if i < path.len() - 1 {
                assert(path.drop_last()[i] == path[i]);
            }
        }
    }
}

proof fn lemma_with_names_are_written(list: Seq<Seq<u8>>, more: Seq<Seq<u8>>)
    requires
        are_written(list),
        are_written(more),
    ensures
        are_written(with_names(list, more)),
    decreases more.len(),
{
    if more.len() > 0 {
        let front = more.drop_last();
        assert(are_written(front)) by {
            assert forall|i: int| 0 <= i < front.len() implies is_written(#[trigger] front[i]) by {
                assert(front[i] == more[i]);
            }
        }
        lemma_with_names_are_written(list, front);
        assert(is_written(more[more.len() - 1]));
    }
}

/// A path that was joined to a verbatim one is written plainly: the prefix as it was, then each name
/// behind one `\`, with none at the end but that of the root alone.
pub proof fn law_verbatim_join_is_written_plainly(base: Seq<u8>, path: Seq<u8>)
    requires
        is_verbatim(prefix_of(base, PathStyle::Windows)),
        prefix_of(path, PathStyle::Windows) is None,
        path.len() > 0,
    ensures
        ({
            let n = prefix_len(prefix_of(base, PathStyle::Windows));
            let whole = joined(base, path, PathStyle::Windows);
            &&& 0 <= n <= whole.len()
            &&& whole.take(n) == base.take(n)
            &&& whole.len() > n ==> whole[n] == 0x5c
            &&& whole.len() > n + 1 ==> whole.last() != 0x5c
            &&& forall|i: int|
                n <= i < whole.len() - 1 && #[trigger] whole[i] == 0x5c ==> whole[i + 1] != 0x5c
        }),
{
    let style = PathStyle::Windows;
    let n = prefix_len(prefix_of(base, style));
    let whole = joined(base, path, style);
    let before = if is_rooted(path, style) {
        seq![]
    } else {
        names(body(base, style), style, true)
    };
    let more = names(body(path, style), style, false);
    let list = with_names(before, more);
    lemma_prefix_within(base);
    lemma_names_are_written(body(base, style));
    lemma_plain_names_are_written(body(path, style));
    lemma_with_names_are_written(before, more);
    u8::lemma_ascii(0x5c);
    assert(whole.take(n) =~= base.take(n));
    if list.len() > 0 {
        let text = written_names(list);
        lemma_written_plainly(list);
        assert(whole =~= base.take(n) + text);
        assert forall|i: int| n <= i < whole.len() - 1 && #[trigger] whole[i] == 0x5c implies whole[i + 1]
            != 0x5c by {
            assert(whole[i] == text[i - n]);
            assert(whole[i + 1] == text[i - n + 1]);
        }
    }
}

proof fn lemma_written_plainly(list: Seq<Seq<u8>>)
    requires
        are_written(list),
        list.len() > 0,
    ensures
        ({
            let text = written_names(list);
            &&& text.len() > 1
            &&& text[0] == 0x5c
            &&& text.last() != 0x5c
            &&& forall|i: int|
                0 <= i < text.len() - 1 && #[trigger] text[i] == 0x5c ==> text[i + 1] != 0x5c
        }),
    decreases list.len(),
{
    let text = written_names(list);
    let front = list.drop_last();
    let first = written_names(front);
    let name = list[list.len() - 1];
    let k = first.len() as int;
    u8::lemma_ascii(0x5c);
    assert(is_written(name));
    assert(text == first.push(0x5c) + name);
    assert(are_written(front)) by {
        assert forall|i: int| 0 <= i < front.len() implies is_written(#[trigger] front[i]) by {
            assert(front[i] == list[i]);
        }
    }
    if front.len() > 0 {
        lemma_written_plainly(front);
    }
    assert(text.last() == name[name.len() - 1]);
    assert forall|i: int| 0 <= i < text.len() - 1 && #[trigger] text[i] == 0x5c implies text[i + 1]
        != 0x5c by {
        if i < k - 1 {
            assert(first[i] == text[i]);
            assert(first[i + 1] == text[i + 1]);
        } else if i == k - 1 {
            assert(first.last() == text[i]);
        } else if i == k {
            assert(text[i + 1] == name[0]);
        } else {
            assert(text[i] == name[i - k - 1]);
        }
    }
}

/// To a verbatim prefix alone a path is joined as to its root; but one that leads nowhere from there, and
/// does not begin with a separator, leaves the prefix alone.
pub proof fn law_verbatim_prefix_alone(base: Seq<u8>, path: Seq<u8>)
    requires
        is_verbatim(prefix_of(base, PathStyle::Windows)),
        base.len() == prefix_len(prefix_of(base, PathStyle::Windows)),
        prefix_of(base.push(0x5c), PathStyle::Windows) == prefix_of(base, PathStyle::Windows),
        prefix_of(path, PathStyle::Windows) is None,
        path.len() > 0,
    ensures
        ({
            let style = PathStyle::Windows;
            let root = base.push(0x5c);
            let nowhere = path[0] != 0x5c && path[0] != 0x2f && joined(root, path, style) == root;
            joined(base, path, style) == if nowhere {
                base
            } else {
                joined(root, path, style)
            }
        }),
{
    let style = PathStyle::Windows;
    let root = base.push(0x5c);
    let empty = Seq::<u8>::empty();
    u8::lemma_ascii(0x5c);
    assert(after_prefix(base, style) =~= empty);
    assert(after_prefix(root, style) =~= seq![0x5cu8]);
    assert(body(base, style) =~= empty);
    assert(body(root, style) =~= empty);
    assert(after_prefix(path, style) =~= path);
    let before = if is_rooted(path, style) {
        seq![]
    } else {
        names(empty, style, true)
    };
    let more = names(body(path, style), style, false);
    let list = with_names(before, more);
    let n = base.len() as int;
    assert(base.take(n) =~= base);
    assert(root.take(n) =~= base);
    lemma_names_are_written(empty);
    lemma_plain_names_are_written(body(path, style));
    lemma_with_names_are_written(before, more);
    if list.len() > 0 {
        lemma_written_plainly(list);
        assert(joined(root, path, style) == base + written_names(list));
        assert(joined(root, path, style).len() > root.len());
    } else {
        assert(joined(root, path, style) == root);
    }
}

} // verus!
