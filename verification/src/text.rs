//! Text as sequences of characters: trimming, ASCII case, searching, splitting
//! and joining.

use vstd::prelude::*;
use vstd::string::*;

verus! {

/// The characters with the Unicode property `White_Space`.
pub open spec fn is_white_space(c: char) -> bool {
    ||| '\u{9}' <= c <= '\u{d}'
    ||| c == ' '
    ||| c == '\u{85}'
    ||| c == '\u{a0}'
    ||| c == '\u{1680}'
    ||| '\u{2000}' <= c <= '\u{200a}'
    ||| c == '\u{2028}'
    ||| c == '\u{2029}'
    ||| c == '\u{202f}'
    ||| c == '\u{205f}'
    ||| c == '\u{3000}'
}

/// `s` without its leading white space.
pub open spec fn trimmed_start(s: Seq<char>) -> Seq<char>
    decreases s.len(),
{
    if s.len() > 0 && is_white_space(s.first()) {
        trimmed_start(s.drop_first())
    } else {
        s
    }
}

/// `s` without its trailing white space.
pub open spec fn trimmed_end(s: Seq<char>) -> Seq<char>
    decreases s.len(),
{
    if s.len() > 0 && is_white_space(s.last()) {
        trimmed_end(s.drop_last())
    } else {
        s
    }
}

/// `s` without its leading and trailing white space.
pub open spec fn trimmed(s: Seq<char>) -> Seq<char> {
    trimmed_end(trimmed_start(s))
}

/// Whether `s` holds nothing but white space.
pub open spec fn is_blank(s: Seq<char>) -> bool {
    trimmed(s).len() == 0
}

/// An ASCII capital letter as the small letter, any other character as it is.
pub open spec fn ascii_lower_char(c: char) -> char {
    if 'A' <= c <= 'Z' {
        ((c as u32 + 32) as u32) as char
    } else {
        c
    }
}

/// `s` with each ASCII capital letter made small.
pub open spec fn ascii_lower(s: Seq<char>) -> Seq<char> {
    s.map_values(|c: char| ascii_lower_char(c))
}

/// `str::trim`: the slice between the first and the last character that is
/// not Unicode white space.
pub assume_specification[ str::trim ](s: &str) -> (res: &str)
    ensures
        res@ == trimmed(s@),
;

/// `str::to_ascii_lowercase`: the letters `A` to `Z` become `a` to `z`, all
/// other characters stay.
pub assume_specification[ str::to_ascii_lowercase ](s: &str) -> (res: String)
    ensures
        res@ == ascii_lower(s@),
;

/// What a result with a message for its error stands for.
pub open spec fn outcome<T: DeepView>(res: Result<T, String>) -> Result<T::V, Seq<char>> {
    match res {
        Ok(value) => Ok(value.deep_view()),
        Err(message) => Err(message@),
    }
}

/// What reading a file gave, where there was a file.
pub open spec fn reading(read: Option<Result<String, String>>) -> Option<
    Result<Seq<char>, Seq<char>>,
> {
    match read {
        Some(content) => Some(outcome(content)),
        None => None,
    }
}

/// Whether two texts hold the same characters.
pub fn same_text(a: &str, b: &str) -> (res: bool)
    ensures
        res == (a@ == b@),
{
    a.to_owned() == b.to_owned()
}

/// The characters of a text.
pub fn chars_of(s: &str) -> (res: Vec<char>)
    ensures
        res@ == s@,
{
    let mut res: Vec<char> = Vec::new();
    for c in it: s.chars()
        invariant
            res@ == it.seq().take(it.index() as int),
            it.seq() == s@,
    {
        res.push(c);
    }
    assert(s@.take(s@.len() as int) == s@);
    res
}

/// `head` followed by `tail`.
pub fn joined(head: &str, tail: &str) -> (res: String)
    ensures
        res@ == head@ + tail@,
{
    let mut res = head.to_owned();
    res.append(tail);
    res
}

/// Whether `s` begins with `prefix`.
pub fn begins_with(s: &str, prefix: &str) -> (res: bool)
    ensures
        res == prefix@.is_prefix_of(s@),
{
    let n: usize = prefix.unicode_len();
    if s.unicode_len() < n {
        return false;
    }
    same_text(s.substring_char(0, n), prefix)
}

/// Whether `part` stands somewhere in `s`.
pub open spec fn occurs_in(part: Seq<char>, s: Seq<char>) -> bool {
    exists|i: int| 0 <= i <= s.len() - part.len() && #[trigger] s.subrange(i, i + part.len()) == part
}

/// Whether `part` stands somewhere in `s`.
pub fn contains_text(s: &str, part: &str) -> (res: bool)
    ensures
        res == occurs_in(part@, s@),
{
    let total: usize = s.unicode_len();
    let n: usize = part.unicode_len();
    if total < n {
        return false;
    }
    let mut i: usize = 0;
    while i <= total - n
        invariant
            n <= total,
            total == s@.len(),
            n == part@.len(),
            i <= total - n + 1,
            forall|k: int| 0 <= k < i ==> #[trigger] s@.subrange(k, k + n) != part@,
        decreases total - n + 1 - i,
    {
        if same_text(s.substring_char(i, i + n), part) {
            return true;
        }
        if i == total - n {
            assert forall|k: int|
                0 <= k <= s@.len() - part@.len() implies #[trigger] s@.subrange(k, k + part@.len())
                != part@ by {}
            return false;
        }
        i = i + 1;
    }
    false
}

/// The pieces of `s` between the occurrences of `separator`, always one more
/// than there are occurrences.
pub open spec fn split_on(s: Seq<char>, separator: char) -> Seq<Seq<char>>
    decreases s.len(),
{
    if s.len() == 0 {
        seq![Seq::<char>::empty()]
    } else {
        let before = split_on(s.drop_last(), separator);
        if s.last() == separator {
            before.push(Seq::<char>::empty())
        } else {
            before.update(before.len() - 1, before.last().push(s.last()))
        }
    }
}

/// A split has at least one piece.
pub proof fn lemma_split_not_empty(s: Seq<char>, separator: char)
    ensures
        split_on(s, separator).len() > 0,
    decreases s.len(),
{
    if s.len() > 0 {
        lemma_split_not_empty(s.drop_last(), separator);
    }
}

/// A text without the separator is its own only piece.
pub proof fn lemma_split_whole(s: Seq<char>, separator: char)
    requires
        !s.contains(separator),
    ensures
        split_on(s, separator) == seq![s],
    decreases s.len(),
{
    if s.len() > 0 {
        assert(s.last() == s[s.len() - 1]);
        assert(!s.drop_last().contains(separator)) by {
            if s.drop_last().contains(separator) {
                let k = choose|k: int| 0 <= k < s.drop_last().len() && s.drop_last()[k] == separator;
                assert(s[k] == separator);
            }
        }
        lemma_split_whole(s.drop_last(), separator);
        assert(s.drop_last().push(s.last()) =~= s);
        assert(split_on(s, separator) =~= seq![s]);
    } else {
        assert(s =~= Seq::<char>::empty());
    }
}

/// The pieces of two texts with a separator between them are the pieces of the
/// first followed by the pieces of the second.
pub proof fn lemma_split_at_separator(head: Seq<char>, tail: Seq<char>, separator: char)
    ensures
        split_on(head + seq![separator] + tail, separator) == split_on(head, separator) + split_on(
            tail,
            separator,
        ),
    decreases tail.len(),
{
    let s = head + seq![separator] + tail;
    if tail.len() == 0 {
        assert(s =~= head.push(separator));
        assert(s.drop_last() =~= head);
        assert(split_on(tail, separator) =~= seq![Seq::<char>::empty()]);
        assert(split_on(s, separator) =~= split_on(head, separator) + split_on(tail, separator));
    } else {
        assert(s.drop_last() =~= head + seq![separator] + tail.drop_last());
        assert(s.last() == tail.last());
        lemma_split_at_separator(head, tail.drop_last(), separator);
        lemma_split_not_empty(tail.drop_last(), separator);
        assert(split_on(s, separator) =~= split_on(head, separator) + split_on(tail, separator));
    }
}

/// The pieces of `s` between the occurrences of `separator`.
pub fn split_text(s: &str, separator: char) -> (res: Vec<String>)
    ensures
        res.deep_view() == split_on(s@, separator),
{
    let chars = chars_of(s);
    let mut res: Vec<String> = Vec::new();
    let mut start: usize = 0;
    let mut i: usize = 0;
    assert(s@.take(0) =~= Seq::<char>::empty());
    assert(res.deep_view().push(s@.subrange(0, 0)) =~= split_on(s@.take(0), separator));
    while i < chars.len()
        invariant
            start <= i <= chars@.len(),
            chars@ == s@,
            res.deep_view().push(s@.subrange(start as int, i as int)) == split_on(
                s@.take(i as int),
                separator,
            ),
        decreases chars@.len() - i,
    {
        let ghost before = res.deep_view();
        let ghost piece = s@.subrange(start as int, i as int);
        assert(s@.take(i + 1).drop_last() =~= s@.take(i as int));
        if chars[i] == separator {
            res.push(s.substring_char(start, i).to_owned());
            start = i + 1;
            assert(res.deep_view() =~= before.push(piece));
            assert(s@.subrange(start as int, i + 1) =~= Seq::<char>::empty());
        } else {
            assert(s@.subrange(start as int, i + 1) =~= piece.push(s@[i as int]));
            assert(before.push(piece).update(before.len() as int, piece.push(s@[i as int]))
                =~= before.push(piece.push(s@[i as int])));
        }
        i = i + 1;
    }
    let ghost before = res.deep_view();
    res.push(s.substring_char(start, i).to_owned());
    assert(res.deep_view() =~= before.push(s@.subrange(start as int, i as int)));
    assert(s@.take(i as int) =~= s@);
    res
}

/// The texts of `parts` one after another, with `separator` between each two.
pub open spec fn joined_with(parts: Seq<Seq<char>>, separator: Seq<char>) -> Seq<char>
    decreases parts.len(),
{
    if parts.len() == 0 {
        Seq::empty()
    } else if parts.len() == 1 {
        parts[0]
    } else {
        joined_with(parts.drop_last(), separator) + separator + parts.last()
    }
}

/// The texts of `parts` one after another, with `separator` between each two.
pub fn join_texts(parts: &Vec<String>, separator: &str) -> (res: String)
    ensures
        res@ == joined_with(parts.deep_view(), separator@),
{
    let mut res = String::new();
    let mut i: usize = 0;
    let ghost all = parts.deep_view();
    while i < parts.len()
        invariant
            i <= parts@.len(),
            all == parts.deep_view(),
            res@ == joined_with(all.take(i as int), separator@),
        decreases parts@.len() - i,
    {
        if i > 0 {
            res.append(separator);
        }
        res.append(parts[i].as_str());
        assert(all.take(i + 1).drop_last() =~= all.take(i as int));
        assert(all.take(i + 1).last() == parts@[i as int]@);
        assert(res@ =~= joined_with(all.take(i + 1), separator@));
        i = i + 1;
    }
    assert(all.take(i as int) =~= all);
    res
}

/// Whether one of `texts` is `wanted`.
pub fn lists_text(texts: &[String], wanted: &str) -> (res: bool)
    ensures
        res == texts.deep_view().contains(wanted@),
{
    let mut i: usize = 0;
    while i < texts.len()
        invariant
            i <= texts@.len(),
            forall|k: int| 0 <= k < i ==> texts@[k]@ != wanted@,
        decreases texts@.len() - i,
    {
        if same_text(texts[i].as_str(), wanted) {
            assert(texts.deep_view()[i as int] == wanted@);
            return true;
        }
        i = i + 1;
    }
    assert forall|k: int| 0 <= k < texts.deep_view().len() implies texts.deep_view()[k] != wanted@ by {
        assert(texts.deep_view()[k] == texts@[k]@);
    }
    false
}

/// A copy of an optional text.
pub fn copied_text(value: &Option<String>) -> (res: Option<String>)
    ensures
        res.deep_view() == value.deep_view(),
{
    match value {
        Some(text) => Some(text.clone()),
        None => None,
    }
}

/// What a trimmed text looks like: it is empty, or neither its first nor its
/// last character is white space.
pub proof fn lemma_trimmed_ends(s: Seq<char>)
    ensures
        trimmed(s).len() > 0 ==> !is_white_space(trimmed(s).first()) && !is_white_space(
            trimmed(s).last(),
        ),
{
    lemma_trimmed_start_first(s);
    lemma_trimmed_end_keeps_first(trimmed_start(s));
}

proof fn lemma_trimmed_start_first(s: Seq<char>)
    ensures
        trimmed_start(s).len() > 0 ==> !is_white_space(trimmed_start(s).first()),
    decreases s.len(),
{
    if s.len() > 0 && is_white_space(s.first()) {
        lemma_trimmed_start_first(s.drop_first());
    }
}

proof fn lemma_trimmed_end_keeps_first(s: Seq<char>)
    ensures
        trimmed_end(s).len() <= s.len(),
        trimmed_end(s).len() > 0 ==> trimmed_end(s).first() == s.first() && !is_white_space(
            trimmed_end(s).last(),
        ),
    decreases s.len(),
{
    if s.len() > 0 && is_white_space(s.last()) {
        lemma_trimmed_end_keeps_first(s.drop_last());
    }
}

/// Trimming a trimmed text changes nothing.
pub proof fn trimming_is_idempotent(s: Seq<char>)
    ensures
        trimmed(trimmed(s)) == trimmed(s),
{
    lemma_trimmed_ends(s);
}

/// Where `wanted` first stands among `texts`.
pub open spec fn first_position(texts: Seq<Seq<char>>, wanted: Seq<char>) -> Option<int>
    decreases texts.len(),
{
    if texts.len() == 0 {
        None
    } else {
        match first_position(texts.drop_last(), wanted) {
            Some(i) => Some(i),
            None => if texts.last() == wanted {
                Some(texts.len() - 1)
            } else {
                None
            },
        }
    }
}

/// The first position of a text is one at which it stands, none before it is,
/// and there is one if and only if the text is listed.
pub proof fn lemma_first_position(texts: Seq<Seq<char>>, wanted: Seq<char>)
    ensures
        match first_position(texts, wanted) {
            Some(i) => 0 <= i < texts.len() && texts[i] == wanted && forall|k: int|
                0 <= k < i ==> texts[k] != wanted,
            None => !texts.contains(wanted),
        },
    decreases texts.len(),
{
    if texts.len() > 0 {
        lemma_first_position(texts.drop_last(), wanted);
        assert forall|k: int| 0 <= k < texts.len() - 1 implies texts[k] == texts.drop_last()[k] by {}
        if first_position(texts, wanted) is None {
            assert forall|k: int| 0 <= k < texts.len() implies texts[k] != wanted by {
                if k < texts.len() - 1 {
                    assert(texts.drop_last()[k] == texts[k]);
                }
            }
        }
    }
}

/// The position at which a text stands first is found by looking at the texts
/// in turn.
pub proof fn lemma_found_first(texts: Seq<Seq<char>>, wanted: Seq<char>, i: int)
    requires
        0 <= i < texts.len(),
        texts[i] == wanted,
        forall|k: int| 0 <= k < i ==> texts[k] != wanted,
    ensures
        first_position(texts, wanted) == Some(i),
{
    lemma_first_position(texts, wanted);
    if first_position(texts, wanted) is Some {
        let j = first_position(texts, wanted)->0;
        if i < j {
            assert(texts[i] != wanted);
        }
        if j < i {
            assert(texts[j] != wanted);
        }
    } else {
        assert(texts.contains(texts[i]));
    }
}

/// A text of which the first character is no white space is not blank.
pub proof fn lemma_first_not_white_space(s: Seq<char>)
    requires
        s.len() > 0,
        !is_white_space(s.first()),
    ensures
        !is_blank(s),
{
    lemma_trimmed_end_not_empty(s);
}

proof fn lemma_trimmed_end_not_empty(s: Seq<char>)
    requires
        s.len() > 0,
        !is_white_space(s.first()),
    ensures
        trimmed_end(s).len() > 0,
    decreases s.len(),
{
    if is_white_space(s.last()) {
        assert(s.len() > 1);
        assert(s.drop_last().first() == s.first());
        lemma_trimmed_end_not_empty(s.drop_last());
    }
}

proof fn lemma_start_taken(s: Seq<char>) -> (at: int)
    ensures
        0 <= at <= s.len(),
        trimmed_start(s) == s.skip(at),
        forall|k: int| 0 <= k < at ==> is_white_space(#[trigger] s[k]),
        at < s.len() ==> !is_white_space(s[at]),
    decreases s.len(),
{
    if s.len() > 0 && is_white_space(s.first()) {
        let rest = s.drop_first();
        let at = lemma_start_taken(rest);
        assert(rest.skip(at) =~= s.skip(at + 1));
        assert forall|k: int| 0 <= k < at + 1 implies is_white_space(#[trigger] s[k]) by {
            if k > 0 {
                assert(s[k] == rest[k - 1]);
            }
        }
        if at + 1 < s.len() {
            assert(s[at + 1] == rest[at]);
        }
        at + 1
    } else {
        assert(s.skip(0) =~= s);
        0
    }
}

proof fn lemma_end_taken(s: Seq<char>) -> (at: int)
    ensures
        0 <= at <= s.len(),
        trimmed_end(s) == s.take(at),
        forall|k: int| at <= k < s.len() ==> is_white_space(#[trigger] s[k]),
        at > 0 ==> !is_white_space(s[at - 1]),
    decreases s.len(),
{
    if s.len() > 0 && is_white_space(s.last()) {
        let rest = s.drop_last();
        let at = lemma_end_taken(rest);
        assert(rest.take(at) =~= s.take(at));
        assert forall|k: int| at <= k < s.len() implies is_white_space(#[trigger] s[k]) by {
            if k < rest.len() {
                assert(s[k] == rest[k]);
            }
        }
        if at > 0 {
            assert(s[at - 1] == rest[at - 1]);
        }
        at
    } else {
        assert(s.take(s.len() as int) =~= s);
        s.len() as int
    }
}

/// Trimming a text takes white space away at its two ends, all of it and nothing
/// else: what is left stands in the text, and only white space stands before it
/// and behind it.
pub proof fn trimming_takes_white_space_only(s: Seq<char>)
    ensures
        exists|from: int, to: int|
            {
                &&& 0 <= from <= to <= s.len()
                &&& trimmed(s) == #[trigger] s.subrange(from, to)
                &&& forall|k: int| 0 <= k < from ==> is_white_space(#[trigger] s[k])
                &&& forall|k: int| to <= k < s.len() ==> is_white_space(#[trigger] s[k])
                &&& from < to ==> !is_white_space(s[from]) && !is_white_space(s[to - 1])
            },
{
    let from = lemma_start_taken(s);
    let rest = s.skip(from);
    let at = lemma_end_taken(rest);
    let to = from + at;
    assert(rest.take(at) =~= s.subrange(from, to));
    assert forall|k: int| to <= k < s.len() implies is_white_space(#[trigger] s[k]) by {
        assert(s[k] == rest[k - from]);
    }
    if at > 0 {
        assert(rest[at - 1] == s[to - 1]);
    }
}

/// A text is blank if and only if each of its characters is white space.
pub proof fn blank_texts_are_white_space(s: Seq<char>)
    ensures
        is_blank(s) <==> forall|k: int| 0 <= k < s.len() ==> is_white_space(#[trigger] s[k]),
{
    let from = lemma_start_taken(s);
    let rest = s.skip(from);
    let at = lemma_end_taken(rest);
    if at > 0 {
        assert(rest[at - 1] == s[from + at - 1]);
    } else if from < s.len() {
        assert(rest[0] == s[from]);
    }
}

/// Making a text small keeps its length, moves the letters `A` to `Z` by the
/// distance to `a` to `z`, and leaves each other character as it is.
pub proof fn only_capitals_are_made_small(s: Seq<char>, i: int)
    requires
        0 <= i < s.len(),
    ensures
        ascii_lower(s).len() == s.len(),
        'A' <= s[i] <= 'Z' ==> ascii_lower(s)[i] as int - 'a' as int == s[i] as int - 'A' as int,
        !('A' <= s[i] <= 'Z') ==> ascii_lower(s)[i] == s[i],
{
}

/// Two lists of texts that are joined are joined one behind the other with the
/// separator between them; one text is joined to itself.
pub proof fn joined_lists_follow_each_other(
    first: Seq<Seq<char>>,
    second: Seq<Seq<char>>,
    separator: Seq<char>,
)
    ensures
        first.len() > 0 && second.len() > 0 ==> joined_with(first + second, separator)
            == joined_with(first, separator) + separator + joined_with(second, separator),
        first.len() == 1 ==> joined_with(first, separator) == first[0],
        first.len() == 0 ==> joined_with(first, separator).len() == 0,
    decreases second.len(),
{
    if first.len() > 0 && second.len() > 0 {
        let all = first + second;
        assert(all.drop_last() =~= first + second.drop_last());
        assert(all.last() == second.last());
        if second.len() == 1 {
            assert(first + second.drop_last() =~= first);
        } else {
            joined_lists_follow_each_other(first, second.drop_last(), separator);
            assert(joined_with(all, separator) =~= joined_with(first, separator) + separator
                + joined_with(second, separator));
        }
    }
}

/// The outcome of an operation tells its value, or the message of its error.
pub proof fn outcomes_tell_values_and_messages(res: Result<String, String>)
    ensures
        match (res, outcome(res)) {
            (Ok(value), Ok(seen)) => seen == value@,
            (Err(message), Err(seen)) => seen == message@,
            _ => false,
        },
        reading(Some(res)) == Some(outcome(res)),
        reading(None) is None,
{
}

/// Joining the pieces of a text with the separator between them gives the text
/// back.
pub proof fn joining_undoes_splitting(s: Seq<char>, separator: char)
    ensures
        joined_with(split_on(s, separator), seq![separator]) == s,
    decreases s.len(),
{
    let pieces = split_on(s, separator);
    if s.len() == 0 {
        assert(pieces.len() == 1);
        assert(pieces[0] =~= s);
    } else {
        let head = s.drop_last();
        let before = split_on(head, separator);
        lemma_split_not_empty(head, separator);
        joining_undoes_splitting(head, separator);
        assert(head.push(s.last()) =~= s);
        if s.last() == separator {
            assert(pieces.drop_last() =~= before);
            assert(joined_with(pieces, seq![separator]) =~= s);
        } else {
            assert(pieces.drop_last() =~= before.drop_last());
            assert(joined_with(pieces, seq![separator]) =~= s);
        }
    }
}

/// Texts are compared, searched, joined and listed by their characters.
pub proof fn texts_are_taken_by_their_characters(
    a: &str,
    b: &str,
    separator: char,
    same: bool,
    begins: bool,
    holds: bool,
    both: String,
    pieces: Vec<String>,
    list: &Vec<String>,
    glue: &str,
    glued: String,
    copied: Option<String>,
    value: &Option<String>,
)
    requires
        call_ensures(same_text, (a, b), same),
        call_ensures(begins_with, (a, b), begins),
        call_ensures(contains_text, (a, b), holds),
        call_ensures(joined, (a, b), both),
        call_ensures(split_text, (a, separator), pieces),
        call_ensures(join_texts, (list, glue), glued),
        call_ensures(copied_text, (value,), copied),
    ensures
        same <==> a@ == b@,
        begins <==> exists|rest: Seq<char>| a@ == #[trigger] (b@ + rest),
        holds <==> exists|before: Seq<char>, behind: Seq<char>|
            a@ == #[trigger] (before + b@ + behind),
        both@ == a@ + b@,
        joined_with(pieces.deep_view(), seq![separator]) == a@,
        glued@ == joined_with(list.deep_view(), glue@),
        copied is Some <==> *value is Some,
        copied is Some ==> copied->0@ == value->0@,
{
    if begins {
        assert(a@ =~= b@ + a@.skip(b@.len() as int)) by {
            assert(a@.subrange(0, b@.len() as int) =~= b@);
        }
    }
    assert forall|rest: Seq<char>| a@ == #[trigger] (b@ + rest) implies begins by {
        assert(a@.subrange(0, b@.len() as int) =~= b@);
    }
    if holds {
        let i = choose|i: int|
            0 <= i <= a@.len() - b@.len() && #[trigger] a@.subrange(i, i + b@.len()) == b@;
        let before = a@.take(i);
        let behind = a@.skip(i + b@.len());
        assert(a@ =~= before + a@.subrange(i, i + b@.len()) + behind);
        assert(a@ == before + b@ + behind);
    }
    assert forall|before: Seq<char>, behind: Seq<char>|
        a@ == #[trigger] (before + b@ + behind) implies holds by {
        let at = before.len() as int;
        assert(a@.subrange(at, at + b@.len()) =~= b@);
    }
    joining_undoes_splitting(a@, separator);
    assert(copied.deep_view() == value.deep_view());
}

}
