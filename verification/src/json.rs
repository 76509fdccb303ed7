//! JSON values as the library reads and builds them, and the text form that
//! `serde_json` gives them.

use vstd::prelude::*;
use vstd::string::*;
use crate::text::same_text;

verus! {

/// `serde_json::Number`, carried through for the numbers that are no integers.
#[verifier::external_type_specification]
#[verifier::external_body]
pub struct ExNumber(serde_json::Number);

/// The `Clone` of `serde_json::Number`: the copy is the same number.
pub assume_specification[ <serde_json::Number as Clone>::clone ](
    number: &serde_json::Number,
) -> (res: serde_json::Number)
    ensures
        res == *number,
;

/// A JSON number. An integer is one of the first two forms, `NegInt` for the
/// negative ones; `Other` is a number with a fraction or an exponent, or an
/// integer that fits neither form.
#[derive(Debug, PartialEq)]
pub enum JsonNumber {
    PosInt(u64),
    NegInt(i64),
    Other(serde_json::Number),
}

/// A JSON value. The members of an object are kept as a list of names and
/// values.
#[derive(Debug, PartialEq)]
pub enum Json {
    Null,
    Bool(bool),
    Number(JsonNumber),
    Text(String),
    Array(Vec<Json>),
    Object(Vec<(String, Json)>),
}

/// What a `Json` stands for.
pub enum JsonView {
    Null,
    Bool(bool),
    Number(JsonNumber),
    Text(Seq<char>),
    Array(Seq<JsonView>),
    Object(Seq<(Seq<char>, JsonView)>),
}

/// What `value` stands for.
pub open spec fn json_view(value: Json) -> JsonView
    decreases value,
{
    match value {
        Json::Null => JsonView::Null,
        Json::Bool(b) => JsonView::Bool(b),
        Json::Number(n) => JsonView::Number(n),
        Json::Text(s) => JsonView::Text(s@),
        Json::Array(items) => JsonView::Array(
            Seq::new(
                items@.len(),
                |i: int|
                    if 0 <= i < items@.len() {
                        json_view(items@[i])
                    } else {
                        JsonView::Null
                    },
            ),
        ),
        Json::Object(members) => JsonView::Object(
            Seq::new(
                members@.len(),
                |i: int|
                    if 0 <= i < members@.len() {
                        (members@[i].0@, json_view(members@[i].1))
                    } else {
                        (Seq::empty(), JsonView::Null)
                    },
            ),
        ),
    }
}

impl View for Json {
    type V = JsonView;

    open spec fn view(&self) -> JsonView {
        json_view(*self)
    }
}

impl DeepView for Json {
    type V = JsonView;

    open spec fn deep_view(&self) -> JsonView {
        json_view(*self)
    }
}

/// The members of an object, by name and value.
pub type Members = Seq<(Seq<char>, JsonView)>;

/// What `members` stands for.
pub open spec fn members_view(members: Seq<(String, Json)>) -> Members {
    members.map_values(|member: (String, Json)| (member.0@, json_view(member.1)))
}

/// The value of the member `name`. Where a name stands twice, the last counts.
pub open spec fn member(members: Members, name: Seq<char>) -> Option<JsonView>
    decreases members.len(),
{
    if members.len() == 0 {
        None
    } else if members.last().0 == name {
        Some(members.last().1)
    } else {
        member(members.drop_last(), name)
    }
}

/// Whether a member is called otherwise than `name`.
pub open spec fn other_than(name: Seq<char>) -> spec_fn((Seq<char>, JsonView)) -> bool {
    |entry: (Seq<char>, JsonView)| entry.0 != name
}

/// `members` without the one called `name`.
pub open spec fn without(members: Members, name: Seq<char>) -> Members {
    members.filter(other_than(name))
}

/// `members` with the value of `name` set to `value`.
pub open spec fn with(members: Members, name: Seq<char>, value: JsonView) -> Members {
    without(members, name).push((name, value))
}

/// Whether `counterpart` is the integer that `number` is, where `number` has one
/// of the two forms of integers.
pub open spec fn same_integer(number: JsonNumber, counterpart: JsonNumber) -> bool {
    match number {
        JsonNumber::PosInt(n) => counterpart == JsonNumber::PosInt(n),
        JsonNumber::NegInt(n) => counterpart == if n < 0 {
            JsonNumber::NegInt(n)
        } else {
            JsonNumber::PosInt(n as u64)
        },
        JsonNumber::Other(_) => true,
    }
}

impl JsonView {
    /// The value of the member `name`; there is none in a value that is no
    /// object.
    pub open spec fn get(self, name: Seq<char>) -> Option<JsonView> {
        match self {
            JsonView::Object(members) => member(members, name),
            _ => None,
        }
    }

    /// The text that the member `name` holds, if it holds one.
    pub open spec fn get_text(self, name: Seq<char>) -> Option<Seq<char>> {
        match self.get(name) {
            Some(JsonView::Text(text)) => Some(text),
            _ => None,
        }
    }

    /// Whether no more than `levels` arrays and objects stand one in another.
    pub open spec fn nested_within(self, levels: nat) -> bool
        decreases levels,
    {
        match self {
            JsonView::Array(items) => levels > 0 && forall|i: int|
                0 <= i < items.len() ==> (#[trigger] items[i]).nested_within((levels - 1) as nat),
            JsonView::Object(members) => levels > 0 && forall|i: int|
                0 <= i < members.len() ==> (#[trigger] members[i]).1.nested_within(
                    (levels - 1) as nat,
                ),
            _ => true,
        }
    }

    /// Whether `other` is the same value but for its numbers that are no
    /// integers, and but for the order of members and for members that a later
    /// one of the same name hides. No more than `levels` arrays and objects are
    /// looked into one in another.
    pub open spec fn alike(self, other: JsonView, levels: nat) -> bool
        decreases levels,
    {
        match (self, other) {
            (JsonView::Number(number), JsonView::Number(counterpart)) => same_integer(
                number,
                counterpart,
            ),
            (JsonView::Array(items), JsonView::Array(others)) => {
                &&& levels > 0
                &&& items.len() == others.len()
                &&& forall|i: int|
                    0 <= i < items.len() ==> (#[trigger] items[i]).alike(
                        others[i],
                        (levels - 1) as nat,
                    )
            },
            (JsonView::Object(_), JsonView::Object(_)) => {
                &&& levels > 0
                &&& forall|name: Seq<char>|
                    match (#[trigger] self.get(name), other.get(name)) {
                        (Some(value), Some(counterpart)) => value.alike(
                            counterpart,
                            (levels - 1) as nat,
                        ),
                        (None, None) => true,
                        _ => false,
                    }
            },
            _ => self == other,
        }
    }
}

/// Values that are alike are both objects or neither is, and as objects they
/// have members of the same names, of which the same hold the same texts.
pub proof fn alike_values_hold_the_same_texts(
    value: JsonView,
    other: JsonView,
    levels: nat,
    name: Seq<char>,
)
    requires
        value.alike(other, levels),
    ensures
        value is Object <==> other is Object,
        value.get(name) is Some <==> other.get(name) is Some,
        value.get_text(name) == other.get_text(name),
{
    match (value.get(name), other.get(name)) {
        (Some(held), Some(counterpart)) => {
            if value is Object && other is Object {
                assert(held.alike(counterpart, (levels - 1) as nat));
            }
        },
        _ => {},
    }
}

/// The number of arrays and objects that may stand one in another in a text
/// that is parsed.
pub open spec fn max_nesting() -> nat {
    127
}

/// Whether a member is still there with the value that it had, or still absent.
pub open spec fn stayed(before: Option<JsonView>, after: Option<JsonView>) -> bool {
    match (before, after) {
        (Some(value), Some(kept)) => value.alike(kept, (max_nesting() - 1) as nat),
        (None, None) => true,
        _ => false,
    }
}

/// Removing one member leaves each other member as it was.
pub proof fn lemma_without(members: Members, name: Seq<char>, other: Seq<char>)
    ensures
        member(without(members, name), other) == if other == name {
            None
        } else {
            member(members, other)
        },
    decreases members.len(),
{
    reveal(Seq::filter);
    if members.len() > 0 {
        lemma_without(members.drop_last(), name, other);
        let kept = without(members.drop_last(), name);
        if members.last().0 != name {
            assert(without(members, name) == kept.push(members.last()));
            assert(without(members, name).drop_last() =~= kept);
        }
    }
}

/// Setting one member leaves each other member as it was.
pub proof fn lemma_with(members: Members, name: Seq<char>, value: JsonView, other: Seq<char>)
    ensures
        member(with(members, name, value), other) == if other == name {
            Some(value)
        } else {
            member(members, other)
        },
{
    lemma_without(members, name, other);
    assert(with(members, name, value).drop_last() =~= without(members, name));
}

/// Removing a member nests nothing deeper.
pub proof fn lemma_without_keeps_nesting(members: Members, name: Seq<char>, levels: nat)
    requires
        JsonView::Object(members).nested_within(levels),
    ensures
        JsonView::Object(without(members, name)).nested_within(levels),
{
    let whole = JsonView::Object(members);
    let part = JsonView::Object(without(members, name));
    assert forall|i: int| 0 <= i < part->Object_0.len() implies (
    #[trigger] part->Object_0[i]).1.nested_within((levels - 1) as nat) by {
        let entry = part->Object_0[i];
        assert(without(members, name).contains(entry));
        members.lemma_filter_contains_rev(other_than(name), entry);
        let k = choose|k: int| 0 <= k < members.len() && members[k] == entry;
        assert(whole->Object_0[k] == entry);
    }
}

/// Setting a member to a text nests nothing deeper.
pub proof fn lemma_with_text_keeps_nesting(
    members: Members,
    name: Seq<char>,
    text: Seq<char>,
    levels: nat,
)
    requires
        JsonView::Object(members).nested_within(levels),
    ensures
        JsonView::Object(with(members, name, JsonView::Text(text))).nested_within(levels),
{
    lemma_without_keeps_nesting(members, name, levels);
    let kept = JsonView::Object(without(members, name));
    let whole = JsonView::Object(with(members, name, JsonView::Text(text)));
    assert forall|i: int| 0 <= i < whole->Object_0.len() implies (
    #[trigger] whole->Object_0[i]).1.nested_within((levels - 1) as nat) by {
        if i < kept->Object_0.len() {
            assert(whole->Object_0[i] == kept->Object_0[i]);
        }
    }
}

impl Json {
    /// The value of the member `name`, or nothing where there is none or the
    /// value is no object.
    pub fn get(&self, name: &str) -> (res: Option<&Json>)
        ensures
            match res {
                Some(value) => self@.get(name@) == Some(value@),
                None => self@.get(name@) is None,
            },
    {
        match self {
            Json::Object(members) => {
                proof {
                    assert(self@->Object_0 =~= members_view(members@));
                }
                find_member(members, name)
            },
            _ => None,
        }
    }

    /// The text, where the value is one.
    pub fn as_text(&self) -> (res: Option<&str>)
        ensures
            match self@ {
                JsonView::Text(text) => res is Some && res->0@ == text,
                _ => res is None,
            },
    {
        match self {
            Json::Text(text) => Some(text.as_str()),
            _ => None,
        }
    }

    /// The integer, where the value is a number that is one and fits.
    pub fn as_i64(&self) -> (res: Option<i64>)
        ensures
            res == integer(self@),
    {
        match self {
            Json::Number(JsonNumber::PosInt(n)) => {
                if *n <= i64::MAX as u64 {
                    Some(*n as i64)
                } else {
                    None
                }
            },
            Json::Number(JsonNumber::NegInt(n)) => Some(*n),
            _ => None,
        }
    }

    /// A copy of the value.
    pub fn copied(&self) -> (res: Json)
        ensures
            res@ == self@,
        decreases *self,
    {
        match self {
            Json::Null => Json::Null,
            Json::Bool(b) => Json::Bool(*b),
            Json::Number(n) => Json::Number(copied_number(n)),
            Json::Text(text) => Json::Text(text.clone()),
            Json::Array(items) => {
                let mut copies: Vec<Json> = Vec::new();
                let mut i: usize = 0;
                while i < items.len()
                    invariant
                        i <= items@.len(),
                        copies@.len() == i,
                        *self == Json::Array(*items),
                        forall|k: int| 0 <= k < i ==> json_view(#[trigger] copies@[k]) == json_view(items@[k]),
                    decreases items@.len() - i,
                {
                    assert(decreases_to!(*self => self->Array_0));
                    assert(decreases_to!(self->Array_0@ => self->Array_0@[i as int]));
                    copies.push(items[i].copied());
                    i = i + 1;
                }
                let res = Json::Array(copies);
                assert(res@->Array_0 =~= self@->Array_0);
                res
            },
            Json::Object(members) => {
                let mut copies: Vec<(String, Json)> = Vec::new();
                let mut i: usize = 0;
                while i < members.len()
                    invariant
                        i <= members@.len(),
                        copies@.len() == i,
                        *self == Json::Object(*members),
                        forall|k: int|
                            0 <= k < i ==> (#[trigger] copies@[k]).0@ == members@[k].0@ && json_view(
                                copies@[k].1,
                            ) == json_view(members@[k].1),
                    decreases members@.len() - i,
                {
                    assert(decreases_to!(*self => self->Object_0));
                    assert(decreases_to!(self->Object_0@ => self->Object_0@[i as int]));
                    assert(decreases_to!(self->Object_0@[i as int] => self->Object_0@[i as int].1));
                    copies.push((members[i].0.clone(), members[i].1.copied()));
                    i = i + 1;
                }
                let res = Json::Object(copies);
                assert(res@->Object_0 =~= self@->Object_0);
                res
            },
        }
    }
}

/// A copy of a number.
pub fn copied_number(number: &JsonNumber) -> (res: JsonNumber)
    ensures
        res == *number,
{
    match number {
        JsonNumber::PosInt(n) => JsonNumber::PosInt(*n),
        JsonNumber::NegInt(n) => JsonNumber::NegInt(*n),
        JsonNumber::Other(n) => JsonNumber::Other(n.clone()),
    }
}

/// The integer that a value is, where it is a number that is one and lies in
/// the range of `i64`.
pub open spec fn integer(value: JsonView) -> Option<i64> {
    match value {
        JsonView::Number(JsonNumber::PosInt(n)) => if n <= i64::MAX {
            Some(n as i64)
        } else {
            None
        },
        JsonView::Number(JsonNumber::NegInt(n)) => Some(n),
        _ => None,
    }
}

/// The value of the member `name` of a list of members.
pub fn find_member<'a>(members: &'a Vec<(String, Json)>, name: &str) -> (res: Option<&'a Json>)
    ensures
        match res {
            Some(value) => member(members_view(members@), name@) == Some(value@),
            None => member(members_view(members@), name@) is None,
        },
{
    let ghost all = members_view(members@);
    let mut i: usize = members.len();
    assert(all.take(i as int) =~= all);
    while i > 0
        invariant
            i <= members@.len(),
            all == members_view(members@),
            member(all, name@) == member(all.take(i as int), name@),
        decreases i,
    {
        assert(all.take(i as int).drop_last() =~= all.take(i - 1));
        i = i - 1;
        if same_text(members[i].0.as_str(), name) {
            return Some(&members[i].1);
        }
    }
    None
}

/// Takes the member `name` out of a list of members, and says whether there
/// was one.
pub fn remove_member(members: &mut Vec<(String, Json)>, name: &str) -> (res: bool)
    ensures
        members_view(final(members)@) == without(members_view(old(members)@), name@),
        res == (member(members_view(old(members)@), name@) is Some),
{
    let ghost before = members_view(members@);
    let ghost kept = other_than(name@);
    let mut found = false;
    let mut i: usize = 0;
    let ghost mut done: int = 0;
    proof {
        reveal(Seq::filter);
        assert(before.take(0) =~= Seq::<(Seq<char>, JsonView)>::empty());
        assert(members_view(members@).take(0) =~= before.take(0).filter(kept));
        assert(members_view(members@).skip(0) =~= before.skip(0));
    }
    while i < members.len()
        invariant
            i <= members@.len(),
            0 <= done <= before.len(),
            before.len() - done == members@.len() - i,
            kept == other_than(name@),
            members_view(members@).skip(i as int) == before.skip(done),
            members_view(members@).take(i as int) == before.take(done).filter(kept),
            found == (member(before.take(done), name@) is Some),
        decreases members@.len() - i,
    {
        reveal(Seq::filter);
        let ghost now = members_view(members@);
        assert(now[i as int] == now.skip(i as int)[0]);
        assert(before[done] == before.skip(done)[0]);
        assert(before.take(done + 1).drop_last() =~= before.take(done));
        assert(before.skip(done + 1) =~= before.skip(done).skip(1));
        if same_text(members[i].0.as_str(), name) {
            members.remove(i);
            found = true;
            assert(members_view(members@) =~= now.remove(i as int));
            assert(members_view(members@).skip(i as int) =~= now.skip(i as int).skip(1));
            assert(members_view(members@).take(i as int) =~= now.take(i as int));
        } else {
            assert(now.skip(i + 1) =~= now.skip(i as int).skip(1));
            assert(now.take(i + 1) =~= now.take(i as int).push(now[i as int]));
            i = i + 1;
        }
        proof {
            done = done + 1;
        }
    }
    assert(before.take(done) =~= before);
    assert(members_view(members@).take(i as int) =~= members_view(members@));
    found
}

/// Sets the member `name` of a list of members.
pub fn set_member(members: &mut Vec<(String, Json)>, name: &str, value: Json)
    ensures
        members_view(final(members)@) == with(members_view(old(members)@), name@, value@),
{
    remove_member(members, name);
    let ghost kept = members_view(members@);
    members.push((name.to_owned(), value));
    assert(members_view(members@) =~= kept.push((name@, value@)));
}

/// `serde_json::Value`, the form in which `serde_json` takes and gives values.
#[verifier::external_type_specification]
#[verifier::external_body]
pub struct ExValue(serde_json::Value);

/// What `serde_json::from_str` makes of a text: the value, or the message of
/// its error.
pub uninterp spec fn json_parse(text: Seq<char>) -> Result<JsonView, Seq<char>>;

/// The text that `serde_json::to_string_pretty` makes of a value.
pub uninterp spec fn json_pretty(value: JsonView) -> Seq<char>;

/// The text that `serde_json::to_string` makes of a value.
pub uninterp spec fn json_compact(value: JsonView) -> Seq<char>;

/// Whether `text` is read back as `value`. Numbers with a fraction may come back
/// changed in their last digits.
pub open spec fn reads_back(text: Seq<char>, value: JsonView) -> bool {
    match json_parse(text) {
        Ok(parsed) => value.alike(parsed, max_nesting()),
        Err(_) => false,
    }
}

/// A `serde_json::Value` as a `Json`, variant by variant. `as_u64` and `as_i64`
/// of `serde_json::Number` tell its integers from its other numbers.
#[verifier::external_body]
fn json_from_value(value: serde_json::Value) -> Json {
    match value {
        serde_json::Value::Null => Json::Null,
        serde_json::Value::Bool(b) => Json::Bool(b),
        serde_json::Value::Number(n) => Json::Number(match (n.as_u64(), n.as_i64()) {
            (Some(u), _) => JsonNumber::PosInt(u),
            (None, Some(i)) => JsonNumber::NegInt(i),
            (None, None) => JsonNumber::Other(n),
        }),
        serde_json::Value::String(s) => Json::Text(s),
        serde_json::Value::Array(v) => Json::Array(v.into_iter().map(json_from_value).collect()),
        serde_json::Value::Object(m) => {
            Json::Object(m.into_iter().map(|(k, v)| (k, json_from_value(v))).collect())
        },
    }
}

/// A `Json` as a `serde_json::Value`, variant by variant.
#[verifier::external_body]
fn value_from_json(value: &Json) -> serde_json::Value {
    match value {
        Json::Null => serde_json::Value::Null,
        Json::Bool(b) => serde_json::Value::Bool(*b),
        Json::Number(JsonNumber::PosInt(n)) => serde_json::Value::from(*n),
        Json::Number(JsonNumber::NegInt(n)) => serde_json::Value::from(*n),
        Json::Number(JsonNumber::Other(n)) => serde_json::Value::Number(n.clone()),
        Json::Text(s) => serde_json::Value::from(s.as_str()),
        Json::Array(v) => serde_json::Value::Array(v.iter().map(value_from_json).collect()),
        Json::Object(m) => serde_json::Value::Object(
            m.iter().map(|(k, v)| (k.clone(), value_from_json(v))).collect(),
        ),
    }
}

/// `serde_json::from_str` into a `serde_json::Value`. The result is a function
/// of the text; a text in which more than 127 arrays and objects stand one in
/// another is refused.
#[verifier::external_body]
pub(crate) fn parse_json(text: &str) -> (res: Result<Json, String>)
    ensures
        match res {
            Ok(value) => json_parse(text@) == Ok::<JsonView, Seq<char>>(value@)
                && value@.nested_within(max_nesting()),
            Err(message) => json_parse(text@) == Err::<JsonView, Seq<char>>(message@),
        },
{
    match serde_json::from_str::<serde_json::Value>(text) {
        Ok(value) => Ok(json_from_value(value)),
        Err(error) => Err(error.to_string()),
    }
}

/// `serde_json::to_string_pretty` of a `serde_json::Value`, which always
/// succeeds since its object keys are texts. Where no more than 127 arrays and
/// objects stand one in another, `from_str` takes the text back as the same
/// value, but for the last digits of numbers that are no integers.
#[verifier::external_body]
pub(crate) fn pretty_json(value: &Json) -> (res: Result<String, String>)
    ensures
        res is Ok,
        res->Ok_0@ == json_pretty(value@),
        value@.nested_within(max_nesting()) ==> reads_back(res->Ok_0@, value@),
{
    serde_json::to_string_pretty(&value_from_json(value)).map_err(|error| error.to_string())
}

/// `serde_json::to_string` of a `serde_json::Value`, of which the same holds.
#[verifier::external_body]
pub(crate) fn compact_json(value: &Json) -> (res: Result<String, String>)
    ensures
        res is Ok,
        res->Ok_0@ == json_compact(value@),
        value@.nested_within(max_nesting()) ==> reads_back(res->Ok_0@, value@),
{
    serde_json::to_string(&value_from_json(value)).map_err(|error| error.to_string())
}

/// Of the members of one name the last counts; a name that no member has stands
/// for nothing.
pub proof fn the_last_member_counts(members: Members, name: Seq<char>)
    ensures
        match member(members, name) {
            Some(value) => exists|i: int|
                {
                    &&& 0 <= i < members.len()
                    &&& #[trigger] members[i] == (name, value)
                    &&& forall|k: int| i < k < members.len() ==> (#[trigger] members[k]).0 != name
                },
            None => forall|k: int| 0 <= k < members.len() ==> (#[trigger] members[k]).0 != name,
        },
    decreases members.len(),
{
    if members.len() > 0 {
        let last = members.len() - 1;
        if members.last().0 == name {
            assert(members[last] == (name, members.last().1));
        } else {
            let before = members.drop_last();
            the_last_member_counts(before, name);
            if member(before, name) is Some {
                let value = member(before, name)->0;
                let i = choose|i: int|
                    {
                        &&& 0 <= i < before.len()
                        &&& #[trigger] before[i] == (name, value)
                        &&& forall|k: int| i < k < before.len() ==> (#[trigger] before[k]).0 != name
                    };
                assert(members[i] == (name, value));
                assert forall|k: int| i < k < members.len() implies (
                #[trigger] members[k]).0 != name by {
                    if k < last {
                        assert(members[k] == before[k]);
                    }
                }
            } else {
                assert forall|k: int| 0 <= k < members.len() implies (
                #[trigger] members[k]).0 != name by {
                    if k < last {
                        assert(members[k] == before[k]);
                    }
                }
            }
        }
    }
}

/// Only an object has members, and a member holds a text if and only if its
/// value is one.
pub proof fn objects_have_members(members: Members, name: Seq<char>, text: Seq<char>, value: JsonView)
    ensures
        JsonView::Object(members).get(name) == member(members, name),
        value !is Object ==> value.get(name) is None && value.get_text(name) is None,
        value.get_text(name) == Some(text) <==> value.get(name) == Some(JsonView::Text(text)),
{
}

/// An integer in the range of `i64` is read as that integer, and nothing else
/// is read as one.
pub proof fn integers_are_read_as_they_are(value: JsonView, n: i64)
    ensures
        integer(value) == Some(n) <==> value == JsonView::Number(JsonNumber::NegInt(n)) || (n >= 0
            && value == JsonView::Number(JsonNumber::PosInt(n as u64))),
{
}

/// Removing a member drops each entry of that name and keeps the others in
/// their order; setting one puts it behind the others.
pub proof fn members_keep_their_order(
    members: Members,
    entry: (Seq<char>, JsonView),
    name: Seq<char>,
    value: JsonView,
)
    ensures
        without(Seq::empty(), name) == Members::empty(),
        entry.0 == name ==> without(members.push(entry), name) == without(members, name),
        entry.0 != name ==> without(members.push(entry), name) == without(members, name).push(entry),
        with(members, name, value) == without(members, name).push((name, value)),
{
    reveal(Seq::filter);
    assert(members.push(entry).drop_last() =~= members);
}

/// A member that stayed is there if and only if it was; texts, truth values,
/// `null` and the integers are what they were, and arrays are as long as they
/// were.
pub proof fn members_that_stay_keep_their_values(before: Option<JsonView>, after: Option<JsonView>)
    requires
        stayed(before, after),
    ensures
        before is None <==> after is None,
        match before {
            Some(JsonView::Text(text)) => after == Some(JsonView::Text(text)),
            Some(JsonView::Bool(b)) => after == Some(JsonView::Bool(b)),
            Some(JsonView::Null) => after == Some(JsonView::Null),
            Some(JsonView::Number(JsonNumber::PosInt(n))) => after == Some(
                JsonView::Number(JsonNumber::PosInt(n)),
            ),
            Some(JsonView::Array(items)) => after matches Some(JsonView::Array(others))
                && others.len() == items.len(),
            Some(JsonView::Object(_)) => after matches Some(JsonView::Object(_)),
            Some(JsonView::Number(_)) => after matches Some(JsonView::Number(_)),
            None => true,
        },
{
}

/// What is seen of a value is the value: its kind, its text or number, its items
/// and members in their order.
pub proof fn values_are_seen_whole(value: Json, i: int)
    ensures
        match (value, value@) {
            (Json::Null, JsonView::Null) => true,
            (Json::Bool(b), JsonView::Bool(seen)) => b == seen,
            (Json::Number(n), JsonView::Number(seen)) => n == seen,
            (Json::Text(s), JsonView::Text(seen)) => s@ == seen,
            (Json::Array(items), JsonView::Array(seen)) => {
                &&& seen.len() == items@.len()
                &&& 0 <= i < seen.len() ==> seen[i] == items@[i]@
            },
            (Json::Object(members), JsonView::Object(seen)) => {
                &&& seen.len() == members@.len()
                &&& 0 <= i < seen.len() ==> seen[i].0 == members@[i].0@ && seen[i].1
                    == members@[i].1@
            },
            _ => false,
        },
{
}

/// The members, texts and integers of a value are those that it holds.
pub proof fn values_are_looked_into(
    value: &Json,
    name: &str,
    found: Option<&Json>,
    text: Option<&str>,
    number: Option<i64>,
    copy: Json,
    n: i64,
)
    requires
        call_ensures(Json::get, (value, name), found),
        call_ensures(Json::as_text, (value,), text),
        call_ensures(Json::as_i64, (value,), number),
        call_ensures(Json::copied, (value,), copy),
    ensures
        found is Some <==> value@.get(name@) is Some,
        found is Some ==> found->0@ == value@.get(name@)->0,
        text is Some <==> value@ is Text,
        text is Some ==> text->0@ == value@->Text_0,
        number == Some(n) <==> value@ == JsonView::Number(JsonNumber::NegInt(n)) || (n >= 0
            && value@ == JsonView::Number(JsonNumber::PosInt(n as u64))),
        copy@ == value@,
{
}

}
