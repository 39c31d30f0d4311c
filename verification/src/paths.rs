//! Paths as text: the last component, and the place below a root.
//!
//! Systems disagree about paths: one takes a backslash for a separator, another for a letter, and
//! only some have drives and network shares. What is said here of the paths of the standard
//! library holds on all of them.

use vstd::prelude::*;
use vstd::string::*;
use crate::model::{opt_text, ScanRoot};
use crate::text::{ends_with, is_blank};

verus! {

/// Whether a character separates components on some system.
pub open spec fn is_separator(c: char) -> bool {
    c == '/' || c == '\\'
}

/// Whether a text is the name of a file or directory on every system.
pub open spec fn plain_component(name: Seq<char>) -> bool {
    &&& name.len() > 0
    &&& name != "."@
    &&& name != ".."@
    &&& forall|i: int| 0 <= i < name.len() ==> !is_separator(#[trigger] name[i])
}

/// Whether a text is a single component on every system, with no colon, which might name a drive.
pub open spec fn plain_label(label: Seq<char>) -> bool {
    plain_component(label) && !label.contains(':')
}

/// Whether a text is a run of plain components, with a separator of some system between each two.
pub open spec fn plain_names(path: Seq<char>) -> bool
    decreases path.len(),
{
    plain_component(path) || exists|i: int|
        0 < i < path.len() && is_separator(#[trigger] path[i]) && plain_component(path.take(i))
            && plain_names(path.skip(i + 1))
}

/// Whether a text starts like the name of a drive: with one character and a colon.
pub open spec fn may_name_drive(path: Seq<char>) -> bool {
    path.len() >= 2 && path[1] == ':'
}

/// Whether a text is, on every system, a path of plain components that starts neither at a root
/// nor at a drive.
pub open spec fn plain_path(path: Seq<char>) -> bool {
    plain_names(path) && !may_name_drive(path)
}

/// Whether a path starts with two separators, so that it may name a network share or a device.
pub open spec fn may_be_share(path: Seq<char>) -> bool {
    path.len() >= 2 && is_separator(path[0]) && is_separator(path[1])
}

/// Whether a path ends in a separator of some system and the plain component `name`.
pub open spec fn has_final_name(path: Seq<char>, name: Seq<char>) -> bool {
    &&& plain_component(name)
    &&& name.len() < path.len()
    &&& path.subrange(path.len() - name.len(), path.len() as int) == name
    &&& is_separator(path[path.len() - name.len() - 1])
}

/// Whether a path that names no network share ends in a separator of some system and the plain
/// component `name`.
pub open spec fn ends_in_name(path: Seq<char>, name: Seq<char>) -> bool {
    has_final_name(path, name) && !may_be_share(path)
}

/// Whether a path ends, on every system, in the component `name`.
pub open spec fn ends_in_component(path: Seq<char>, name: Seq<char>) -> bool {
    ends_in_name(path, name) && path[path.len() - name.len() - 1] == '/'
}

/// Whether a path ends, on every system, in the step to the parent directory.
pub open spec fn ends_in_parent(path: Seq<char>) -> bool {
    path == ".."@ || (ends_with(path, "/.."@) && !may_be_share(path))
}

/// Whether `rest` is what follows the name of a share in a path that starts with two slashes, the
/// plain name of a server, a slash and the plain name of the share.
pub open spec fn behind_share(
    path: Seq<char>,
    server: Seq<char>,
    share: Seq<char>,
    rest: Seq<char>,
) -> bool {
    &&& path == "//"@ + server + "/"@ + share + rest
    &&& plain_component(server)
    &&& plain_component(share)
    &&& rest.len() > 0
    &&& rest[0] == '/'
}

/// A path without the slashes at its end, and, where it names no network share, without the steps
/// there that stay where they are.
pub open spec fn without_closing(path: Seq<char>) -> Seq<char>
    decreases path.len(),
{
    if path.len() > 0 && (path.last() == '/' || (ends_with(path, "/."@) && !may_be_share(path))) {
        without_closing(path.drop_last())
    } else {
        path
    }
}

/// Whether `part` stands somewhere in `path`.
pub open spec fn is_part_of(part: Seq<char>, path: Seq<char>) -> bool {
    exists|i: int|
        0 <= i <= path.len() - part.len() && #[trigger] path.subrange(i, i + part.len()) == part
}

/// Whether `name` may be the last component of `dir`.
///
/// It is a part of the path. Slashes at the end do not count, nor do steps there that stay where
/// they are. Where all systems agree on the last component it is that: the one behind the last
/// slash, or the whole path where it is a single one. An empty path, the root and a step to the
/// parent have none. Behind a backslash it is the name there, or a longer part of the path that
/// ends in it. A path that may name a network share may have none, or has one that ends in the
/// last name.
pub open spec fn may_be_file_name(dir: Seq<char>, name: Option<Seq<char>>) -> bool {
    let base = without_closing(dir);
    &&& name matches Some(n) ==> n.len() > 0 && is_part_of(n, dir)
    &&& dir.len() == 0 || dir == "/"@ || ends_in_parent(base) ==> name is None
    &&& plain_label(base) ==> name == Some(base)
    &&& forall|n: Seq<char>| #[trigger] ends_in_component(base, n) ==> name == Some(n)
    &&& forall|n: Seq<char>| #[trigger]
        ends_in_name(base, n) ==> (name matches Some(m) && ends_with(base, m) && ends_with(m, n))
    &&& forall|n: Seq<char>|
        dir.len() > 0 && dir.last() == '\\' && #[trigger] ends_in_name(dir.drop_last(), n) ==> (
        name matches Some(m) && (m == n || (ends_with(dir, m) && ends_with(m, n.push('\\')))))
    &&& forall|server: Seq<char>, share: Seq<char>, rest: Seq<char>, n: Seq<char>| #[trigger]
        behind_share(base, server, share, rest) && #[trigger] ends_in_component(rest, n) ==> name
            == Some(n)
    &&& forall|n: Seq<char>| #[trigger]
        has_final_name(dir, n) ==> (name matches Some(m) ==> ends_with(dir, m) && ends_with(m, n))
    &&& forall|n: Seq<char>|
        dir.len() > 0 && is_separator(dir.last()) && #[trigger] has_final_name(dir.drop_last(), n)
            ==> (name matches Some(m) ==> ends_with(m, n) || ends_with(m, n.push(dir.last())))
}

/// `std::path::Path::file_name`, as text.
///
/// Trusted: the result is the final component of the path, as far as all systems agree on what
/// that is. Whether a path that may name a network share has one is left open, unless it is
/// written with slashes and goes on behind the share; the one it has ends in the last name of the
/// path. A single name with a colon, which may name a drive, is left open too.
#[verifier::external_body]
pub(crate) fn path_file_name(path: &str) -> (r: Option<String>)
    ensures
        may_be_file_name(path@, opt_text(r)),
{
    std::path::Path::new(path).file_name().map(|n| n.to_string_lossy().into_owned())
}

/// The project of a session: the last component of its directory, where it has one.
pub open spec fn project_of(dir: Option<Seq<char>>, name: Option<Seq<char>>) -> Seq<char> {
    match dir {
        Some(d) => if is_blank(d) || name is None {
            "unknown"@
        } else {
            name->0
        },
        None => "unknown"@,
    }
}

/// A path without the separator `sep` at its end, if it has one there.
pub open spec fn stem_of(base: Seq<char>, sep: char) -> Seq<char> {
    if base.len() > 0 && base.last() == sep {
        base.drop_last()
    } else {
        base
    }
}

/// Whether `path` is written as `base`, the separator `sep` and `tail`. A separator at the end of
/// the base is the one between them.
pub open spec fn written_below(
    path: Seq<char>,
    base: Seq<char>,
    sep: char,
    tail: Seq<char>,
) -> bool {
    path == stem_of(base, sep).push(sep) + tail
}

/// Whether a path names no network share and ends in a plain component.
pub open spec fn ends_plainly(path: Seq<char>) -> bool {
    plain_label(path) || exists|n: Seq<char>| #[trigger] ends_in_name(path, n)
}

/// Whether a path may name a network share and ends in a plain component.
pub open spec fn shares_plainly(path: Seq<char>) -> bool {
    may_be_share(path) && exists|n: Seq<char>| #[trigger] has_final_name(path, n)
}

/// Whether a path that may name a network share may be no more than the prefix of a verbatim path:
/// a name, or the names of a server and a share, behind two backslashes, a question mark and a
/// backslash.
pub open spec fn may_be_verbatim_prefix(path: Seq<char>) -> bool {
    path[2] == '?' && (path.len() < 4 || !path.skip(4).contains('\\') || (path.len() >= 8
        && path.subrange(4, 8) == "UNC\\"@))
}

/// Whether a path starts at the root and is written with slashes only, so that all systems agree
/// on its components.
pub open spec fn is_rooted(path: Seq<char>) -> bool {
    path.len() > 0 && path[0] == '/' && !path.contains('\\') && !may_be_share(path)
}

/// The parts of a path between its slashes.
pub open spec fn between_slashes(path: Seq<char>) -> Seq<Seq<char>>
    decreases path.len(),
{
    if path.len() == 0 {
        seq![Seq::empty()]
    } else {
        let front = between_slashes(path.drop_last());
        if path.last() == '/' {
            front.push(Seq::empty())
        } else {
            front.drop_last().push(front.last().push(path.last()))
        }
    }
}

/// The components of a path written with slashes: the parts between them but for empty ones and
/// steps that stay where they are.
pub open spec fn components(path: Seq<char>) -> Seq<Seq<char>> {
    between_slashes(path).filter(|part: Seq<char>| part.len() > 0 && part != "."@)
}

/// Whether `below` may be what is left of `path` below `base`.
///
/// It is a part of the path. Plain components behind a slash are what is left on every system.
/// Behind a backslash they are what is left, or the path does not lie below the base at all. So it
/// is below a network share that is not written with slashes, but if the base is no more than the
/// prefix of a verbatim path, the separator may be kept as well. Of two rooted paths one lies below
/// the other exactly where the components of the other come first in it, and what is left has
/// those that follow.
pub open spec fn may_be_below(path: Seq<char>, base: Seq<char>, below: Option<Seq<char>>) -> bool {
    &&& below matches Some(b) ==> is_part_of(b, path)
    &&& forall|tail: Seq<char>|
        ends_plainly(stem_of(base, '/')) && #[trigger] plain_names(tail) && written_below(
            path,
            base,
            '/',
            tail,
        ) ==> below == Some(tail)
    &&& forall|tail: Seq<char>|
        ends_plainly(stem_of(base, '\\')) && #[trigger] plain_names(tail) && written_below(
            path,
            base,
            '\\',
            tail,
        ) ==> below == Some(tail) || below is None
    &&& forall|tail: Seq<char>, sep: char|
        #![trigger plain_names(tail), is_separator(sep)]
        is_separator(sep) && shares_plainly(stem_of(base, sep)) && plain_names(tail)
            && written_below(path, base, sep, tail) ==> below == Some(tail) || below is None || (
        may_be_verbatim_prefix(stem_of(base, sep)) && below == Some(seq![sep] + tail))
    &&& forall|server: Seq<char>, share: Seq<char>, rest: Seq<char>, tail: Seq<char>|
        shares_plainly(stem_of(base, '/')) && #[trigger] behind_share(
            stem_of(base, '/').push('/'),
            server,
            share,
            rest,
        ) && #[trigger] plain_names(tail) && written_below(path, base, '/', tail) ==> below == Some(
            tail,
        )
    &&& is_rooted(path) && is_rooted(base) ==> {
        &&& below is Some <==> components(base).is_prefix_of(components(path))
        &&& below matches Some(b) ==> components(path) == components(base) + components(b)
    }
}

/// Whether `joined` is `rel` behind `base`, with a separator of some system between them.
pub open spec fn is_behind(joined: Seq<char>, base: Seq<char>, rel: Seq<char>) -> bool {
    joined == base + "/"@ + rel || joined == base + "\\"@ + rel
}

/// Whether `joined` may be `rel` below `base`.
///
/// Below a plain component the result is `rel` behind it, or `rel` itself. It is behind it where
/// `rel` is a plain path, and itself where `rel` starts at the root. Below anything but a network
/// share it ends in `rel`, and a plain path stands behind the base, with or without a separator
/// between them.
pub open spec fn may_be_joined(base: Seq<char>, rel: Seq<char>, joined: Seq<char>) -> bool {
    &&& plain_label(base) ==> joined == rel || is_behind(joined, base, rel)
    &&& plain_label(base) && plain_path(rel) ==> is_behind(joined, base, rel)
    &&& plain_label(base) && rel.len() > 0 && rel[0] == '/' ==> joined == rel
    &&& !may_be_share(base) ==> ends_with(joined, rel)
    &&& !may_be_share(base) && plain_path(rel) ==> joined == base + rel || is_behind(
        joined,
        base,
        rel,
    )
}

/// `std::path::Path::strip_prefix`, as text.
///
/// Trusted: of two paths that start at the root and are written with slashes, one is below the
/// other where the components of the other come first in it. Below a base that ends in a plain
/// component, a path of plain components comes back as it was written, or, where a backslash is no
/// separator, the path does not lie below the base; below the prefix of a verbatim path the
/// separator may stay in front. How a path is written that has to be normalized, and what lies
/// below the mere name of a drive, is left open.
#[verifier::external_body]
fn path_below(path: &str, base: &str) -> (r: Option<String>)
    ensures
        may_be_below(path@, base@, opt_text(r)),
{
    std::path::Path::new(path).strip_prefix(base).ok().map(|p| p.to_string_lossy().into_owned())
}

/// `std::path::Path::join`, as text.
///
/// Trusted: the path is written behind the base, with a separator of the system between them where
/// one is needed, or takes the place of the base where it starts at a root or a drive. What becomes
/// of a path behind a network share is left open.
#[verifier::external_body]
fn path_join(base: &str, rel: &str) -> (r: String)
    ensures
        may_be_joined(base@, rel@, r@),
{
    std::path::Path::new(base).join(rel).to_string_lossy().into_owned()
}

/// What is left of a path below the directory of a root, or the whole path where it does not lie
/// below it.
pub open spec fn rel_or_path(path: Seq<char>, below: Option<Seq<char>>) -> Seq<char> {
    match below {
        Some(below) => below,
        None => path,
    }
}

/// The place of a file below its root, behind the label of the root where it has one: `joined` is
/// the label joined with the place.
pub open spec fn rel_of(
    label: Option<Seq<char>>,
    path: Seq<char>,
    below: Option<Seq<char>>,
    joined: Seq<char>,
) -> Seq<char> {
    match label {
        Some(_) => joined,
        None => rel_or_path(path, below),
    }
}

/// What is left of a path below the directory of a root, or the whole path where it does not lie
/// below it.
pub fn place_below(path: &str, below: &Option<String>) -> (r: String)
    ensures
        r@ == rel_or_path(path@, opt_text(*below)),
{
    match below {
        Some(below) => below.clone(),
        None => path.to_owned(),
    }
}

/// The place of a file below its root: `below` is what is left of its path below the directory of
/// the root, `joined` the label of the root joined with the place.
pub fn labelled_place(
    label: &Option<String>,
    path: &str,
    below: &Option<String>,
    joined: &str,
) -> (r: String)
    ensures
        r@ == rel_of(opt_text(*label), path@, opt_text(*below), joined@),
{
    match label {
        Some(_) => joined.to_owned(),
        None => place_below(path, below),
    }
}

/// Whether `rel` may be the place of the file `path` below a root: its path below the directory of
/// the root, behind the label of the root where it has one.
pub open spec fn may_be_place(
    path: Seq<char>,
    dir: Seq<char>,
    label: Option<Seq<char>>,
    rel: Seq<char>,
) -> bool {
    exists|below: Option<Seq<char>>, joined: Seq<char>|
        {
            &&& may_be_below(path, dir, below)
            &&& label matches Some(l) ==> may_be_joined(l, rel_or_path(path, below), joined)
            &&& rel == #[trigger] rel_of(label, path, below, joined)
        }
}

/// The place of a file below its root, behind the label of the root where it has one, so that
/// files of the same name below different roots are told apart.
pub fn session_rel(path: &str, root: &ScanRoot) -> (r: String)
    ensures
        may_be_place(path@, root.dir@, opt_text(root.label), r@),
{
    let below: Option<String> = path_below(path, root.dir.as_str());
    let joined: String = match &root.label {
        Some(label) => path_join(label.as_str(), place_below(path, &below).as_str()),
        None => String::new(),
    };
    let r = labelled_place(&root.label, path, &below, joined.as_str());
    assert(r@ == rel_of(opt_text(root.label), path@, opt_text(below), joined@));
    r
}

/// Whether a key is one of a file at `rel`: the place, a colon, and what tells the records of the
/// file apart, which starts with no separator.
pub open spec fn is_key_of(key: Seq<char>, rel: Seq<char>) -> bool {
    let at = rel.len() as int;
    at + 1 < key.len() && key.take(at) == rel && key[at] == ':' && !is_separator(key[at + 1])
}

/// Whether no key of a file at one place is one of a file at the other.
pub open spec fn keys_apart(a: Seq<char>, b: Seq<char>) -> bool {
    forall|key: Seq<char>| !(#[trigger] is_key_of(key, a) && is_key_of(key, b))
}

/// Whether a separator follows the character at `i` of a text where it is a colon.
pub open spec fn colon_closes(text: Seq<char>, i: int) -> bool {
    text[i] == ':' ==> i + 1 < text.len() && is_separator(text[i + 1])
}

/// Whether a text is what stands in front of a place: nothing, or a text that ends in a separator
/// and in which a separator follows each colon.
pub open spec fn is_front(front: Seq<char>) -> bool {
    &&& front.len() == 0 || is_separator(front.last())
    &&& forall|i: int| 0 <= i < front.len() ==> #[trigger] colon_closes(front, i)
}

/// Whether a place behind a front has the same character at `i` as the place alone.
spec fn recurs_at(front: Seq<char>, place: Seq<char>, i: int) -> bool {
    (front + place)[i] == place[i]
}

/// Where a place behind a front starts with the place itself, a separator follows each colon up to
/// the end of the place.
proof fn lemma_colons_close(front: Seq<char>, place: Seq<char>, at: int)
    requires
        is_front(front),
        0 < front.len(),
        forall|i: int| 0 <= i < place.len() ==> #[trigger] recurs_at(front, place, i),
        0 <= at <= place.len(),
        (front + place)[at] == ':',
    ensures
        at + 1 < front.len() + place.len(),
        is_separator((front + place)[at + 1]),
    decreases at,
{
    let whole = front + place;
    if at < front.len() {
        assert(colon_closes(front, at));
    } else {
        let back = at - front.len();
        assert(recurs_at(front, place, back));
        lemma_colons_close(front, place, back);
        if at + 1 < whole.len() {
            assert(recurs_at(front, place, back + 1));
        }
    }
}

/// A place behind a front and the same place behind a longer one that starts with it share no key.
proof fn lemma_longer_front(front: Seq<char>, more: Seq<char>, place: Seq<char>, key: Seq<char>)
    requires
        is_front(more),
        0 < more.len(),
        is_key_of(key, front + place),
    ensures
        !is_key_of(key, front + (more + place)),
{
    let back = more + place;
    let short = front + place;
    let long = front + back;
    if is_key_of(key, long) {
        let start = front.len() as int;
        let end = short.len() as int;
        assert(forall|i: int| 0 <= i < end ==> key[i] == short[i]) by {
            assert(forall|i: int| 0 <= i < end ==> key.take(end)[i] == key[i]);
        }
        assert(forall|i: int| 0 <= i < long.len() ==> key[i] == long[i]) by {
            assert(forall|i: int| 0 <= i < long.len() ==> key.take(long.len() as int)[i] == key[i]);
        }
        assert forall|i: int| 0 <= i < place.len() implies #[trigger] recurs_at(more, place, i) by {
            assert(key[start + i] == short[start + i]);
            assert(key[start + i] == long[start + i]);
        }
        assert(key[end] == long[end] && long[end] == back[place.len() as int]);
        lemma_colons_close(more, place, place.len() as int);
        assert(key[end + 1] == long[end + 1] && long[end + 1] == back[place.len() as int + 1]);
    }
}

/// The same place behind two different fronts has no key in common.
proof fn lemma_fronts_apart(a: Seq<char>, b: Seq<char>, place: Seq<char>)
    requires
        is_front(a),
        is_front(b),
        a != b,
    ensures
        keys_apart(a + place, b + place),
{
    assert forall|key: Seq<char>|
        !(#[trigger] is_key_of(key, a + place) && is_key_of(key, b + place)) by {
        if is_key_of(key, a + place) && is_key_of(key, b + place) {
            let x = key.take((a + place).len() as int);
            let y = key.take((b + place).len() as int);
            assert forall|i: int| 0 <= i < a.len() && i < b.len() implies a[i] == b[i] by {
                assert(x[i] == a[i]);
                assert(y[i] == b[i]);
            }
            if a.len() < b.len() {
                let more = b.skip(a.len() as int);
                assert(b + place =~= a + (more + place));
                lemma_rest_of_front(a, b);
                lemma_longer_front(a, more, place, key);
            } else if b.len() < a.len() {
                let more = a.skip(b.len() as int);
                assert(a + place =~= b + (more + place));
                lemma_rest_of_front(b, a);
                lemma_longer_front(b, more, place, key);
            } else {
                assert(a =~= b);
            }
        }
    }
}

/// What a front has more than a shorter text is a front.
proof fn lemma_rest_of_front(short: Seq<char>, long: Seq<char>)
    requires
        is_front(long),
        short.len() < long.len(),
    ensures
        is_front(long.skip(short.len() as int)),
{
    let more = long.skip(short.len() as int);
    assert(more.last() == long.last());
    assert forall|i: int| 0 <= i < more.len() implies #[trigger] colon_closes(more, i) by {
        assert(colon_closes(long, i + short.len()));
    }
}

/// A plain label and the separator behind it are a front.
proof fn lemma_label_is_front(label: Seq<char>, sep: char)
    requires
        plain_label(label),
        is_separator(sep),
    ensures
        is_front(label.push(sep)),
{
    let front = label.push(sep);
    assert forall|i: int| 0 <= i < front.len() implies #[trigger] colon_closes(front, i) by {
        if i < label.len() {
            assert(front[i] == label[i]);
            assert(label.contains(label[i]));
        }
    }
}

/// A file below a root with a label never shares a key with the file at the same place below a
/// root without one.
pub proof fn label_keeps_root_from_home(label: Seq<char>, rel: Seq<char>, joined: Seq<char>)
    requires
        plain_label(label),
        plain_path(rel),
        may_be_joined(label, rel, joined),
    ensures
        keys_apart(rel, joined),
        keys_apart(joined, rel),
{
    reveal_strlit("/");
    reveal_strlit("\\");
    let sep = joined[label.len() as int];
    let front = label.push(sep);
    assert(joined =~= front + rel);
    assert(rel =~= Seq::<char>::empty() + rel);
    lemma_label_is_front(label, sep);
    lemma_fronts_apart(Seq::empty(), front, rel);
    lemma_fronts_apart(front, Seq::empty(), rel);
}

/// Files below roots with different labels never share a key.
pub proof fn labels_keep_roots_apart(
    a: Seq<char>,
    rel_a: Seq<char>,
    joined_a: Seq<char>,
    b: Seq<char>,
    rel_b: Seq<char>,
    joined_b: Seq<char>,
)
    requires
        a != b,
        plain_label(a),
        plain_label(b),
        plain_path(rel_a),
        plain_path(rel_b),
        may_be_joined(a, rel_a, joined_a),
        may_be_joined(b, rel_b, joined_b),
    ensures
        keys_apart(joined_a, joined_b),
{
    reveal_strlit("/");
    reveal_strlit("\\");
    assert forall|key: Seq<char>|
        !(#[trigger] is_key_of(key, joined_a) && is_key_of(key, joined_b)) by {
        if is_key_of(key, joined_a) && is_key_of(key, joined_b) {
            let x = key.take(joined_a.len() as int);
            let y = key.take(joined_b.len() as int);
            assert(key.take(a.len() as int) =~= x.take(a.len() as int));
            assert(key.take(b.len() as int) =~= y.take(b.len() as int));
            assert(x.take(a.len() as int) =~= a);
            assert(y.take(b.len() as int) =~= b);
            assert(key[a.len() as int] == x[a.len() as int]);
            assert(key[b.len() as int] == y[b.len() as int]);
            assert(is_separator(key[a.len() as int]));
            assert(is_separator(key[b.len() as int]));
            if a.len() < b.len() {
                assert(b[a.len() as int] == key[a.len() as int]);
            } else if b.len() < a.len() {
                assert(a[b.len() as int] == key[b.len() as int]);
            }
        }
    }
}

/// Whether `path` is written as the plain path `place` below `dir`, with the separator `sep`
/// between them.
///
/// The directory starts at a root or a drive, ends in a plain component, is more than the prefix
/// of a verbatim path, and holds no colon but in front of a separator.
pub open spec fn lies_below(path: Seq<char>, dir: Seq<char>, sep: char, place: Seq<char>) -> bool {
    let stem = stem_of(dir, sep);
    &&& is_separator(sep)
    &&& plain_path(place)
    &&& written_below(path, dir, sep, place)
    &&& is_separator(stem[0]) || may_name_drive(stem)
    &&& ends_plainly(stem) || (shares_plainly(stem) && !may_be_verbatim_prefix(stem))
    &&& is_front(stem.push(sep))
}

/// Whether a front starts with the label and a separator.
spec fn is_labelled(front: Seq<char>, label: Seq<char>) -> bool {
    &&& label.len() < front.len()
    &&& front.take(label.len() as int) == label
    &&& is_separator(front[label.len() as int])
}

/// Whether `front` may stand in front of a place below a root, `whole` being the directory of the
/// root and the separator behind it.
spec fn may_be_front(front: Seq<char>, label: Option<Seq<char>>, whole: Seq<char>) -> bool {
    match label {
        Some(l) => front == whole || is_labelled(front, l),
        None => front == whole || front.len() == 0,
    }
}

/// One front behind another is a front.
proof fn lemma_front_behind_front(a: Seq<char>, b: Seq<char>)
    requires
        is_front(a),
        is_front(b),
    ensures
        is_front(a + b),
{
    let both = a + b;
    if b.len() > 0 {
        assert(both.last() == b.last());
    } else {
        assert(both =~= a);
    }
    assert forall|i: int| 0 <= i < both.len() implies #[trigger] colon_closes(both, i) by {
        if i < a.len() {
            assert(colon_closes(a, i));
        } else {
            assert(colon_closes(b, i - a.len()));
        }
    }
}

/// The place of a file below its root is its plain path behind a front of the root.
proof fn lemma_place_behind_front(
    path: Seq<char>,
    dir: Seq<char>,
    label: Option<Seq<char>>,
    rel: Seq<char>,
    sep: char,
    place: Seq<char>,
) -> (front: Seq<char>)
    requires
        lies_below(path, dir, sep, place),
        label matches Some(l) ==> plain_label(l),
        may_be_place(path, dir, label, rel),
    ensures
        rel == front + place,
        is_front(front),
        may_be_front(front, label, stem_of(dir, sep).push(sep)),
        sep == '/' && ends_plainly(stem_of(dir, sep)) ==> front != stem_of(dir, sep).push(sep),
{
    reveal_strlit("/");
    reveal_strlit("\\");
    let whole = stem_of(dir, sep).push(sep);
    let (below, joined) = choose|below: Option<Seq<char>>, joined: Seq<char>|
        {
            &&& may_be_below(path, dir, below)
            &&& label matches Some(l) ==> may_be_joined(l, rel_or_path(path, below), joined)
            &&& rel == #[trigger] rel_of(label, path, below, joined)
        };
    assert(plain_names(place) && is_separator(sep));
    assert(below == Some(place) || below is None);
    let inner = if below is Some {
        Seq::<char>::empty()
    } else {
        whole
    };
    assert(rel_or_path(path, below) =~= inner + place);
    match label {
        Some(l) => {
            if rel == rel_or_path(path, below) && below is None {
                inner
            } else {
                let front = l.push(rel[l.len() as int]);
                lemma_label_is_front(l, rel[l.len() as int]);
                lemma_front_behind_front(front, inner);
                assert(rel =~= (front + inner) + place);
                assert((front + inner).take(l.len() as int) =~= l);
                lemma_labelled_starts_nowhere(front + inner, l);
                assert(whole.len() > 1 && whole[0] == stem_of(dir, sep)[0]);
                front + inner
            }
        },
        None => inner,
    }
}

/// Two roots with different labels, or of which only one has a label, have no front in common.
proof fn lemma_roots_have_own_fronts(
    a: Seq<char>,
    label_a: Option<Seq<char>>,
    whole_a: Seq<char>,
    b: Seq<char>,
    label_b: Option<Seq<char>>,
    whole_b: Seq<char>,
)
    requires
        may_be_front(a, label_a, whole_a),
        may_be_front(b, label_b, whole_b),
        label_a != label_b,
        label_a matches Some(l) ==> plain_label(l),
        label_b matches Some(l) ==> plain_label(l),
        whole_a != whole_b || (a != whole_a && b != whole_b),
        whole_a.len() > 1,
        whole_b.len() > 1,
        is_separator(whole_a[0]) || may_name_drive(whole_a),
        is_separator(whole_b[0]) || may_name_drive(whole_b),
    ensures
        a != b,
{
    if a == b {
        if let Some(l) = label_a {
            if is_labelled(a, l) {
                lemma_labelled_starts_nowhere(a, l);
            }
        }
        if let Some(l) = label_b {
            if is_labelled(b, l) {
                lemma_labelled_starts_nowhere(b, l);
            }
        }
        if label_a is Some && label_b is Some && is_labelled(a, label_a->0) && is_labelled(
            b,
            label_b->0,
        ) {
            let x = label_a->0;
            let y = label_b->0;
            if x.len() < y.len() {
                assert(b.take(y.len() as int)[x.len() as int] == a[x.len() as int]);
            } else if y.len() < x.len() {
                assert(a.take(x.len() as int)[y.len() as int] == b[y.len() as int]);
            }
        }
    }
}

/// A front that starts with a plain label starts neither at a root nor at a drive.
proof fn lemma_labelled_starts_nowhere(front: Seq<char>, label: Seq<char>)
    requires
        plain_label(label),
        is_labelled(front, label),
    ensures
        !is_separator(front[0]),
        !may_name_drive(front),
{
    assert(front.take(label.len() as int)[0] == front[0]);
    if label.len() > 1 {
        assert(front.take(label.len() as int)[1] == front[1]);
        assert(label.contains(label[1]));
    }
}

/// Files at the same place below two roots never share a key, whatever the system makes of their
/// paths: not where one root has a label and the other has none, nor where the labels differ. One
/// file below two roots in the same directory is told apart too, where all systems agree that it
/// lies there.
pub proof fn places_below_two_roots_are_apart(
    path_a: Seq<char>,
    dir_a: Seq<char>,
    sep_a: char,
    label_a: Option<Seq<char>>,
    rel_a: Seq<char>,
    path_b: Seq<char>,
    dir_b: Seq<char>,
    sep_b: char,
    label_b: Option<Seq<char>>,
    rel_b: Seq<char>,
    place: Seq<char>,
)
    requires
        lies_below(path_a, dir_a, sep_a, place),
        lies_below(path_b, dir_b, sep_b, place),
        path_a != path_b || (sep_a == '/' && ends_plainly(stem_of(dir_a, sep_a))),
        label_a != label_b,
        label_a matches Some(l) ==> plain_label(l),
        label_b matches Some(l) ==> plain_label(l),
        may_be_place(path_a, dir_a, label_a, rel_a),
        may_be_place(path_b, dir_b, label_b, rel_b),
    ensures
        keys_apart(rel_a, rel_b),
{
    let whole_a = stem_of(dir_a, sep_a).push(sep_a);
    let whole_b = stem_of(dir_b, sep_b).push(sep_b);
    let front_a = lemma_place_behind_front(path_a, dir_a, label_a, rel_a, sep_a, place);
    let front_b = lemma_place_behind_front(path_b, dir_b, label_b, rel_b, sep_b, place);
    if whole_a == whole_b {
        assert(path_a == path_b);
        assert(whole_a.last() == sep_a && whole_b.last() == sep_b);
        assert(whole_a.drop_last() =~= stem_of(dir_a, sep_a));
        assert(whole_b.drop_last() =~= stem_of(dir_b, sep_b));
        assert(front_a != whole_a && front_b != whole_b);
    }
    lemma_roots_have_own_fronts(front_a, label_a, whole_a, front_b, label_b, whole_b);
    lemma_fronts_apart(front_a, front_b, place);
}

/// The project of a session is the last component of its directory; it is unknown where there is no
/// directory, where that is blank, or where it has no last component.
pub proof fn directory_gives_the_project(dir: Seq<char>, name: Seq<char>)
    ensures
        !is_blank(dir) ==> project_of(Some(dir), Some(name)) == name,
        is_blank(dir) ==> project_of(Some(dir), Some(name)) == "unknown"@,
        project_of(Some(dir), None) == "unknown"@,
        project_of(None, Some(name)) == "unknown"@,
        project_of(None, None) == "unknown"@,
{
}

/// The place of a file is its path below its root, or its whole path where it does not lie below;
/// below a root with a label it is that joined with the label.
pub proof fn place_is_below_the_root(
    label: Seq<char>,
    path: Seq<char>,
    below: Seq<char>,
    joined: Seq<char>,
)
    ensures
        rel_or_path(path, Some(below)) == below,
        rel_or_path(path, None) == path,
        rel_of(None, path, Some(below), joined) == below,
        rel_of(None, path, None, joined) == path,
        rel_of(Some(label), path, Some(below), joined) == joined,
        rel_of(Some(label), path, None, joined) == joined,
{
}

/// A file that lies at a plain place below the directory of its root, behind a slash, goes by that
/// place on every system; below a root with a plain label it goes by the label, a separator and the
/// place. A file of the same kind of path that does not lie below the root goes by its whole path.
pub proof fn files_go_by_their_place(path: &str, root: ScanRoot, place: Seq<char>, r: String)
    requires
        call_ensures(session_rel, (path, &root), r),
    ensures
        ends_plainly(stem_of(root.dir@, '/')) && plain_names(place) && path@ == stem_of(
            root.dir@,
            '/',
        ).push('/') + place && root.label is None ==> r@ == place,
        ends_plainly(stem_of(root.dir@, '/')) && plain_path(place) && path@ == stem_of(
            root.dir@,
            '/',
        ).push('/') + place ==> (root.label matches Some(label) ==> (plain_label(label@) ==> r@
            == label@ + "/"@ + place || r@ == label@ + "\\"@ + place)),
        is_rooted(path@) && is_rooted(root.dir@) && !components(root.dir@).is_prefix_of(
            components(path@),
        ) && root.label is None ==> r@ == path@,
{
    let (below, joined) = choose|below: Option<Seq<char>>, joined: Seq<char>|
        {
            &&& may_be_below(path@, root.dir@, below)
            &&& opt_text(root.label) matches Some(l) ==> may_be_joined(
                l,
                rel_or_path(path@, below),
                joined,
            )
            &&& r@ == #[trigger] rel_of(opt_text(root.label), path@, below, joined)
        };
}

} // verus!
