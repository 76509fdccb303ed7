//! Paths as texts, joined as the platform joins them.

use vstd::prelude::*;
use vstd::string::*;
use crate::text::same_text;

verus! {

/// How a platform writes its paths.
#[derive(Debug, Clone, Copy, PartialEq)]
pub enum PathStyle {
    Unix,
    Windows,
}

/// How the platform `os` writes its paths.
pub open spec fn style_of(os: Seq<char>) -> PathStyle {
    if os == "windows"@ {
        PathStyle::Windows
    } else {
        PathStyle::Unix
    }
}

/// How the platform `os` writes its paths.
pub fn path_style(os: &str) -> (res: PathStyle)
    ensures
        res == style_of(os@),
{
    if same_text(os, "windows") {
        PathStyle::Windows
    } else {
        PathStyle::Unix
    }
}

/// What a platform puts between a base and what lies below it.
pub open spec fn separator(style: PathStyle) -> char {
    match style {
        PathStyle::Unix => '/',
        PathStyle::Windows => '\\',
    }
}

/// Whether a Windows path begins with `\\?\`, behind which `/` is an ordinary
/// character.
pub open spec fn is_verbatim(base: Seq<char>) -> bool {
    base.len() >= 4 && base[0] == '\\' && base[1] == '\\' && base[2] == '?' && base[3] == '\\'
}

/// Whether a Windows path is a drive and nothing else, such as `C:`, below which
/// a path is one of the drive's current directory.
pub open spec fn is_bare_drive(base: Seq<char>) -> bool {
    base.len() == 2 && base[1] == ':' && ('a' <= base[0] <= 'z' || 'A' <= base[0] <= 'Z')
}

/// Whether nothing is put between a base, which is no verbatim path, and what
/// lies below it: the base is empty, or ends with a separator, or is a bare drive
/// of Windows.
pub open spec fn is_closed(style: PathStyle, base: Seq<char>) -> bool {
    base.len() == 0 || match style {
        PathStyle::Unix => base.last() == '/',
        PathStyle::Windows => base.last() == '\\' || base.last() == '/' || is_bare_drive(base),
    }
}

/// A text without each `\` that follows another.
pub open spec fn undoubled(s: Seq<char>) -> Seq<char>
    decreases s.len(),
{
    if s.len() == 0 {
        s
    } else if s.len() > 1 && s.last() == '\\' && s[s.len() - 2] == '\\' {
        undoubled(s.drop_last())
    } else {
        undoubled(s.drop_last()).push(s.last())
    }
}

/// A verbatim path of Windows without empty components.
pub open spec fn verbatim_path(base: Seq<char>) -> Seq<char> {
    base.take(4) + undoubled(base.skip(4))
}

/// A relative path as it is written below `base`: below a verbatim path of
/// Windows each `/` becomes a `\`.
pub open spec fn written_below(style: PathStyle, base: Seq<char>, relative: Seq<char>) -> Seq<char> {
    if style is Windows && is_verbatim(base) {
        relative.map_values(
            |c: char|
                if c == '/' {
                    '\\'
                } else {
                    c
                },
        )
    } else {
        relative
    }
}

/// A base as it stands before what lies below it.
pub open spec fn closed_base(style: PathStyle, base: Seq<char>) -> Seq<char> {
    if style is Windows && is_verbatim(base) {
        let path = verbatim_path(base);
        if path.len() > 4 && path.last() == '\\' {
            path
        } else {
            path.push('\\')
        }
    } else if is_closed(style, base) {
        base
    } else {
        base.push(separator(style))
    }
}

/// The path of `relative` below `base`.
pub open spec fn path_below(style: PathStyle, base: Seq<char>, relative: Seq<char>) -> Seq<char> {
    closed_base(style, base) + written_below(style, base, relative)
}

fn base_is_verbatim(base: &str) -> (res: bool)
    ensures
        res == is_verbatim(base@),
{
    base.unicode_len() >= 4 && base.get_char(0) == '\\' && base.get_char(1) == '\\'
        && base.get_char(2) == '?' && base.get_char(3) == '\\'
}

fn base_is_closed(style: PathStyle, base: &str) -> (res: bool)
    ensures
        res == is_closed(style, base@),
{
    let n: usize = base.unicode_len();
    if n == 0 {
        return true;
    }
    let last = base.get_char(n - 1);
    match style {
        PathStyle::Unix => last == '/',
        PathStyle::Windows => {
            if last == '\\' || last == '/' {
                return true;
            }
            if n != 2 || last != ':' {
                return false;
            }
            let letter = base.get_char(0);
            ('a' <= letter && letter <= 'z') || ('A' <= letter && letter <= 'Z')
        },
    }
}

fn closed_verbatim_path(base: &str) -> (res: String)
    requires
        is_verbatim(base@),
    ensures
        res@ == closed_base(PathStyle::Windows, base@),
{
    let n: usize = base.unicode_len();
    let ghost rest = base@.skip(4);
    let mut res = base.substring_char(0, 4).to_owned();
    let mut i: usize = 4;
    let mut ends_closed = false;
    assert(rest.take(0) =~= Seq::<char>::empty());
    assert(res@ =~= base@.take(4) + undoubled(rest.take(0)));
    while i < n
        invariant
            4 <= i <= n,
            n == base@.len(),
            rest == base@.skip(4),
            base@.take(4).len() == 4,
            res@ == base@.take(4) + undoubled(rest.take(i - 4)),
            ends_closed == (res@.len() > 4 && res@.last() == '\\'),
            i == 4 ==> res@.len() == 4,
            i > 4 ==> res@.len() > 4 && res@.last() == rest[i - 5],
        decreases n - i,
    {
        let ghost before = res@;
        let ghost longer = rest.take(i - 3);
        assert(longer.drop_last() =~= rest.take(i - 4));
        assert(longer.last() == rest[i - 4] && rest[i - 4] == base@[i as int]);
        let is_mark = base.get_char(i) == '\\';
        if !(is_mark && ends_closed) {
            res.append(base.substring_char(i, i + 1));
            ends_closed = is_mark;
            assert(res@ =~= before.push(base@[i as int]));
            assert(res@ =~= base@.take(4) + undoubled(longer));
        } else {
            assert(longer[longer.len() - 2] == rest[i - 5]);
        }
        i = i + 1;
    }
    assert(rest.take(n - 4) =~= rest);
    if !ends_closed {
        proof {
            reveal_strlit("\\");
        }
        let ghost before = res@;
        res.append("\\");
        assert(res@ =~= before.push('\\'));
    }
    res
}

fn backslashed(relative: &str) -> (res: String)
    ensures
        res@ == relative@.map_values(
            |c: char|
                if c == '/' {
                    '\\'
                } else {
                    c
                },
        ),
{
    let ghost wanted = relative@.map_values(
        |c: char|
            if c == '/' {
                '\\'
            } else {
                c
            },
    );
    let n: usize = relative.unicode_len();
    let mut res = String::new();
    let mut i: usize = 0;
    proof {
        reveal_strlit("\\");
        assert("\\"@ =~= seq!['\\']);
        assert(res@ =~= wanted.take(0));
    }
    while i < n
        invariant
            i <= n,
            n == relative@.len(),
            n == wanted.len(),
            forall|k: int|
                0 <= k < n ==> #[trigger] wanted[k] == if relative@[k] == '/' {
                    '\\'
                } else {
                    relative@[k]
                },
            "\\"@ == seq!['\\'],
            res@ == wanted.take(i as int),
        decreases n - i,
    {
        let ghost before = res@;
        if relative.get_char(i) == '/' {
            res.append("\\");
        } else {
            res.append(relative.substring_char(i, i + 1));
        }
        assert(res@ =~= before.push(wanted[i as int]));
        assert(wanted.take(i + 1) =~= before.push(wanted[i as int]));
        i = i + 1;
    }
    assert(wanted.take(i as int) =~= wanted);
    res
}

/// The path of `relative` below `base`.
pub fn join_path(style: PathStyle, base: &str, relative: &str) -> (res: String)
    ensures
        res@ == path_below(style, base@, relative@),
{
    match style {
        PathStyle::Windows => {
            if base_is_verbatim(base) {
                let mut res = closed_verbatim_path(base);
                res.append(backslashed(relative).as_str());
                return res;
            }
        },
        PathStyle::Unix => {},
    }
    let mut res = base.to_owned();
    if !base_is_closed(style, base) {
        proof {
            reveal_strlit("/");
            reveal_strlit("\\");
        }
        match style {
            PathStyle::Unix => res.append("/"),
            PathStyle::Windows => res.append("\\"),
        }
    }
    assert(res@ =~= closed_base(style, base@));
    res.append(relative);
    res
}

/// A path below a directory that may not be known.
pub open spec fn below(
    style: PathStyle,
    directory: Result<Seq<char>, Seq<char>>,
    relative: Seq<char>,
) -> Result<Seq<char>, Seq<char>> {
    match directory {
        Ok(base) => Ok(path_below(style, base, relative)),
        Err(message) => Err(message),
    }
}

/// Whether the same paths lie below two bases.
pub open spec fn same_base(style: PathStyle, first: Seq<char>, second: Seq<char>) -> bool {
    closed_base(style, first) == closed_base(style, second)
}

/// Below two bases that are not the same, the same relative path leads to two
/// paths that differ.
pub proof fn paths_below_different_bases_differ(
    style: PathStyle,
    first: Seq<char>,
    second: Seq<char>,
    relative: Seq<char>,
)
    requires
        !same_base(style, first, second),
    ensures
        path_below(style, first, relative) != path_below(style, second, relative),
{
    let a = closed_base(style, first);
    let b = closed_base(style, second);
    let r = written_below(style, first, relative);
    let s = written_below(style, second, relative);
    assert(r.len() == s.len());
    if a + r == b + s {
        assert((a + r).len() == a.len() + r.len());
        assert((b + s).len() == b.len() + s.len());
        assert forall|i: int| 0 <= i < a.len() implies a[i] == b[i] by {
            assert((a + r)[i] == a[i]);
            assert((b + s)[i] == b[i]);
        }
        assert(a =~= b);
    }
}

/// Whether `second` is `first` with the separator behind it that is put there
/// anyway.
pub open spec fn is_slashed(style: PathStyle, first: Seq<char>, second: Seq<char>) -> bool {
    !is_closed(style, first) && second == first.push(separator(style))
}

/// Two texts that differ are bases of different paths, unless they differ in a
/// separator behind one of them only, or both are verbatim paths of Windows,
/// which may also differ in empty components.
pub proof fn texts_that_differ_are_different_bases(
    style: PathStyle,
    first: Seq<char>,
    second: Seq<char>,
)
    requires
        first != second,
        !is_slashed(style, first, second),
        !is_slashed(style, second, first),
        !(style is Windows && is_verbatim(first) && is_verbatim(second)),
    ensures
        !same_base(style, first, second),
{
    let a = closed_base(style, first);
    let b = closed_base(style, second);
    if a == b {
        if style is Windows && is_verbatim(first) {
            assert(a[0] == '\\' && a[1] == '\\' && a[2] == '?' && a[3] == '\\');
            assert(b.len() > 4 && second.len() >= 4);
            assert(second[0] == b[0] && second[1] == b[1] && second[2] == b[2] && second[3] == b[3]);
        } else if style is Windows && is_verbatim(second) {
            assert(b[0] == '\\' && b[1] == '\\' && b[2] == '?' && b[3] == '\\');
            assert(a.len() > 4 && first.len() >= 4);
            assert(first[0] == a[0] && first[1] == a[1] && first[2] == a[2] && first[3] == a[3]);
        } else if a != first && b != second {
            assert(a.drop_last() =~= first);
            assert(b.drop_last() =~= second);
        }
    }
}

/// Whether no `\` follows another.
spec fn has_no_double(s: Seq<char>) -> bool {
    forall|i: int, j: int|
        0 <= i && j == i + 1 && j < s.len() && #[trigger] s[i] == '\\' ==> #[trigger] s[j] != '\\'
}

proof fn lemma_undoubled(s: Seq<char>)
    ensures
        has_no_double(undoubled(s)),
        s.len() > 0 ==> undoubled(s).len() > 0 && undoubled(s).last() == s.last(),
        has_no_double(s) ==> undoubled(s) == s,
    decreases s.len(),
{
    if s.len() > 0 {
        let shorter = s.drop_last();
        lemma_undoubled(shorter);
        let before = undoubled(shorter);
        if s.len() > 1 {
            assert(shorter.last() == s[s.len() - 2]);
            assert(s[s.len() - 1] == s.last());
        }
        if has_no_double(s) {
            assert forall|i: int, j: int|
                0 <= i && j == i + 1 && j < shorter.len() && #[trigger] shorter[i]
                    == '\\' implies #[trigger] shorter[j] != '\\' by {
                assert(s[i] == shorter[i] && s[j] == shorter[j]);
            }
            assert(shorter.push(s.last()) =~= s);
        }
        if !(s.len() > 1 && s.last() == '\\' && s[s.len() - 2] == '\\') {
            let after = before.push(s.last());
            assert forall|i: int, j: int|
                0 <= i && j == i + 1 && j < after.len() && #[trigger] after[i]
                    == '\\' implies #[trigger] after[j] != '\\' by {
                assert(after[i] == before[i]);
                if j < before.len() {
                    assert(after[j] == before[j]);
                } else {
                    assert(before.last() == before[i]);
                }
            }
        }
    }
}

/// Whether a relative path is made of names with single `/` between them, the
/// last of which does not end with `:`.
pub open spec fn is_plain(relative: Seq<char>) -> bool {
    &&& relative.len() > 0
    &&& relative.first() != '/'
    &&& relative.last() != '/' && relative.last() != ':'
    &&& forall|i: int| 0 <= i < relative.len() ==> #[trigger] relative[i] != '\\'
    &&& forall|i: int, j: int|
        0 <= i && j == i + 1 && j < relative.len() && #[trigger] relative[i] == '/'
            ==> #[trigger] relative[j] != '/'
}

/// Below a path that was joined, one more separator and nothing else is put.
pub proof fn lemma_joined_base(style: PathStyle, base: Seq<char>, relative: Seq<char>)
    requires
        is_plain(relative),
    ensures
        closed_base(style, path_below(style, base, relative)) == path_below(
            style,
            base,
            relative,
        ).push(separator(style)),
{
    let closed = closed_base(style, base);
    let written = written_below(style, base, relative);
    let path = closed + written;
    assert(path.last() == written.last());
    assert(relative.last() == relative[relative.len() - 1]);
    assert(written.last() == relative.last());
    if style is Windows && is_verbatim(path) {
        let rest = path.skip(4);
        if is_verbatim(base) {
            lemma_undoubled(base.skip(4));
            let head = undoubled(base.skip(4));
            assert(verbatim_path(base).skip(4) =~= head);
            let front = closed.skip(4);
            assert(has_no_double(front)) by {
                if closed != verbatim_path(base) {
                    assert(front =~= head.push('\\'));
                    assert forall|i: int, j: int|
                        0 <= i && j == i + 1 && j < front.len() && #[trigger] front[i]
                            == '\\' implies #[trigger] front[j] != '\\' by {
                        assert(front[i] == head[i]);
                        if j == head.len() {
                            assert(head.last() == head[i]);
                            assert(verbatim_path(base).last() == head.last());
                        }
                    }
                } else {
                    assert(front =~= head);
                }
            }
            assert(rest =~= front + written);
            assert forall|i: int, j: int|
                0 <= i && j == i + 1 && j < rest.len() && #[trigger] rest[i] == '\\' implies
                #[trigger] rest[j] != '\\' by {
                if j < front.len() {
                    assert(rest[i] == front[i] && rest[j] == front[j]);
                } else if i >= front.len() {
                    let a = i - front.len();
                    assert(relative[a] == '/');
                    assert(relative[a + 1] != '/');
                    assert(rest[j] == written[a + 1]);
                } else {
                    assert(rest[j] == written[0]);
                    assert(relative[0] != '/');
                }
            }
        } else {
            if closed.len() < 4 {
                assert(path[3] == relative[3 - closed.len()]);
            }
            if closed.len() > 4 {
                assert(base.len() >= 4);
                assert(base[0] == path[0] && base[1] == path[1] && base[2] == path[2] && base[3]
                    == path[3]);
            }
            assert(rest =~= relative);
        }
        lemma_undoubled(rest);
        assert(verbatim_path(path) =~= path);
    } else {
        assert(!is_closed(style, path)) by {
            if style is Windows && path.len() == 2 {
                assert(path.last() == path[1]);
            }
        }
    }
}

/// Windows alone writes its paths in the style of Windows.
pub proof fn windows_has_its_own_style(os: Seq<char>)
    ensures
        style_of(os) == PathStyle::Windows <==> os == "windows"@,
        style_of(os) == PathStyle::Unix <==> os != "windows"@,
{
}

/// On Unix a path stands behind its base with one `/` between them, which may be
/// the last character of the base; below an empty base it stands alone.
pub proof fn unix_paths_follow_one_slash(base: Seq<char>, relative: Seq<char>)
    ensures
        base.len() == 0 ==> path_below(PathStyle::Unix, base, relative) == relative,
        base.len() > 0 && base.last() == '/' ==> path_below(PathStyle::Unix, base, relative) == base
            + relative,
        base.len() > 0 && base.last() != '/' ==> path_below(PathStyle::Unix, base, relative) == base
            + seq!['/'] + relative,
{
    if base.len() == 0 {
        assert(base + relative =~= relative);
    } else if base.last() != '/' {
        assert(base.push('/') =~= base + seq!['/']);
    }
}

/// On Windows a path stands behind its base, which is no verbatim path, with one
/// separator between them: that at the end of the base, or else a `\`. Behind
/// the letter of a drive alone, and below an empty base, there is none.
pub proof fn windows_paths_follow_one_separator(base: Seq<char>, relative: Seq<char>)
    requires
        !(base.len() >= 4 && base.take(4) == seq!['\\', '\\', '?', '\\']),
    ensures
        ({
            let is_drive = base.len() == 2 && base[1] == ':' && ('a' <= base[0] <= 'z' || 'A'
                <= base[0] <= 'Z');
            let path = path_below(PathStyle::Windows, base, relative);
            &&& base.len() == 0 ==> path == relative
            &&& base.len() > 0 && (base.last() == '\\' || base.last() == '/' || is_drive) ==> path
                == base + relative
            &&& base.len() > 0 && base.last() != '\\' && base.last() != '/' && !is_drive ==> path
                == base + seq!['\\'] + relative
        }),
{
    if base.len() >= 4 && is_verbatim(base) {
        assert(base.take(4) =~= seq!['\\', '\\', '?', '\\']);
    }
    if base.len() == 0 {
        assert(base + relative =~= relative);
    }
    assert(base.push('\\') =~= base + seq!['\\']);
}

proof fn lemma_undoubled_once(head: Seq<char>, tail: Seq<char>)
    ensures
        undoubled(head + seq!['\\', '\\'] + tail) == undoubled(head + seq!['\\'] + tail),
    decreases tail.len(),
{
    let double = head + seq!['\\', '\\'] + tail;
    let single = head + seq!['\\'] + tail;
    if tail.len() == 0 {
        assert(double.drop_last() =~= single);
        assert(double.last() == '\\' && double[double.len() - 2] == '\\');
    } else {
        lemma_undoubled_once(head, tail.drop_last());
        assert(double.drop_last() =~= head + seq!['\\', '\\'] + tail.drop_last());
        assert(single.drop_last() =~= head + seq!['\\'] + tail.drop_last());
        assert(double.last() == tail.last() && single.last() == tail.last());
        assert(double[double.len() - 2] == single[single.len() - 2]);
    }
}

/// Below a verbatim path of Windows, which begins with `\\?\`, one `\` more makes
/// no difference where one stands already. Where no two stand together, a path
/// stands behind its base with one `\` between them, and is written with `\`
/// throughout.
pub proof fn verbatim_paths_have_single_separators(
    head: Seq<char>,
    tail: Seq<char>,
    rest: Seq<char>,
    relative: Seq<char>,
    i: int,
)
    requires
        forall|k: int, m: int|
            0 <= k && m == k + 1 && m < rest.len() && #[trigger] rest[k] == '\\'
                ==> #[trigger] rest[m] != '\\',
        rest.len() > 0,
        0 <= i < relative.len(),
    ensures
        ({
            let start = seq!['\\', '\\', '?', '\\'];
            path_below(PathStyle::Windows, start + (head + seq!['\\', '\\'] + tail), relative)
                == path_below(PathStyle::Windows, start + (head + seq!['\\'] + tail), relative)
        }),
        ({
            let base = seq!['\\', '\\', '?', '\\'] + rest;
            let closed = if rest.last() == '\\' {
                base
            } else {
                base.push('\\')
            };
            let path = path_below(PathStyle::Windows, base, relative);
            &&& path.len() == closed.len() + relative.len()
            &&& path.take(closed.len() as int) == closed
            &&& relative[i] == '/' ==> path[closed.len() + i] == '\\'
            &&& relative[i] != '/' ==> path[closed.len() + i] == relative[i]
        }),
{
    let start = seq!['\\', '\\', '?', '\\'];
    let double = head + seq!['\\', '\\'] + tail;
    let single = head + seq!['\\'] + tail;
    lemma_undoubled_once(head, tail);
    assert((start + double).take(4) =~= start && (start + double).skip(4) =~= double);
    assert((start + single).take(4) =~= start && (start + single).skip(4) =~= single);
    lemma_undoubled(rest);
    assert(has_no_double(rest));
    let base = start + rest;
    assert(base.take(4) =~= start && base.skip(4) =~= rest);
    assert(verbatim_path(base) =~= base);
    assert(base.last() == rest.last());
    let closed = closed_base(PathStyle::Windows, base);
    assert(path_below(PathStyle::Windows, base, relative).take(closed.len() as int) =~= closed);
}

/// A path below a directory is known if and only if the directory is.
pub proof fn paths_need_their_directory(
    style: PathStyle,
    directory: Seq<char>,
    message: Seq<char>,
    relative: Seq<char>,
)
    ensures
        below(style, Ok(directory), relative) == Ok::<Seq<char>, Seq<char>>(
            path_below(style, directory, relative),
        ),
        below(style, Err(message), relative) == Err::<Seq<char>, Seq<char>>(message),
{
}

/// Joining a base and a path on a platform gives the path below the base.
pub proof fn paths_are_joined(
    os: &str,
    base: &str,
    relative: &str,
    style: PathStyle,
    unix: String,
    windows: String,
)
    requires
        call_ensures(path_style, (os,), style),
        call_ensures(join_path, (PathStyle::Unix, base, relative), unix),
        call_ensures(join_path, (PathStyle::Windows, base, relative), windows),
    ensures
        os@ == "windows"@ ==> style is Windows,
        os@ != "windows"@ ==> style is Unix,
        unix@ == path_below(PathStyle::Unix, base@, relative@),
        windows@ == path_below(PathStyle::Windows, base@, relative@),
        base@.len() > 0 && base@.last() != '/' ==> unix@ == base@ + seq!['/'] + relative@,
        base@.len() > 0 && base@.last() == '/' ==> unix@ == base@ + relative@,
        base@.len() == 0 ==> unix@ == relative@,
{
    unix_paths_follow_one_slash(base@, relative@);
}

}
