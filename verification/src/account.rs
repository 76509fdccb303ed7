//! Account records: their fields and their normal form.

use vstd::prelude::*;
use vstd::string::*;
use crate::json::{Json, JsonView};
use crate::text::{
    ascii_lower, is_blank, is_white_space, outcome, same_text, trimmed, trimming_is_idempotent,
};

verus! {

/// An amount of quota units, as the bits of an IEEE 754 double.
#[derive(Debug, Clone, Copy, PartialEq)]
pub struct QuotaAmount {
    pub bits: u64,
}

/// One ZCode account.
#[derive(Debug, PartialEq)]
pub struct ZcodeAccount {
    pub id: String,
    pub provider: String,
    pub email: String,
    pub user_id: Option<String>,
    pub display_name: Option<String>,
    pub avatar_url: Option<String>,
    pub access_token: String,
    pub refresh_token: Option<String>,
    pub zcode_jwt_token: String,
    pub expires_at: Option<i64>,
    pub plan_type: Option<String>,
    pub quota_total: Option<QuotaAmount>,
    pub quota_used: Option<QuotaAmount>,
    pub quota_remaining: Option<QuotaAmount>,
    pub quota_reset_at: Option<i64>,
    pub quota_query_last_error: Option<String>,
    pub quota_query_last_error_at: Option<i64>,
    pub usage_updated_at: Option<i64>,
    pub tags: Option<Vec<String>>,
    pub user_info_raw: Option<Json>,
    pub subscription_raw: Option<Json>,
    pub quota_raw: Option<Json>,
    pub created_at: i64,
    pub last_used: i64,
}

/// What a `ZcodeAccount` stands for.
pub struct AccountView {
    pub id: Seq<char>,
    pub provider: Seq<char>,
    pub email: Seq<char>,
    pub user_id: Option<Seq<char>>,
    pub display_name: Option<Seq<char>>,
    pub avatar_url: Option<Seq<char>>,
    pub access_token: Seq<char>,
    pub refresh_token: Option<Seq<char>>,
    pub zcode_jwt_token: Seq<char>,
    pub expires_at: Option<i64>,
    pub plan_type: Option<Seq<char>>,
    pub quota_total: Option<QuotaAmount>,
    pub quota_used: Option<QuotaAmount>,
    pub quota_remaining: Option<QuotaAmount>,
    pub quota_reset_at: Option<i64>,
    pub quota_query_last_error: Option<Seq<char>>,
    pub quota_query_last_error_at: Option<i64>,
    pub usage_updated_at: Option<i64>,
    pub tags: Option<Seq<Seq<char>>>,
    pub user_info_raw: Option<JsonView>,
    pub subscription_raw: Option<JsonView>,
    pub quota_raw: Option<JsonView>,
    pub created_at: i64,
    pub last_used: i64,
}

impl View for ZcodeAccount {
    type V = AccountView;

    open spec fn view(&self) -> AccountView {
        AccountView {
            id: self.id@,
            provider: self.provider@,
            email: self.email@,
            user_id: self.user_id.deep_view(),
            display_name: self.display_name.deep_view(),
            avatar_url: self.avatar_url.deep_view(),
            access_token: self.access_token@,
            refresh_token: self.refresh_token.deep_view(),
            zcode_jwt_token: self.zcode_jwt_token@,
            expires_at: self.expires_at,
            plan_type: self.plan_type.deep_view(),
            quota_total: self.quota_total,
            quota_used: self.quota_used,
            quota_remaining: self.quota_remaining,
            quota_reset_at: self.quota_reset_at,
            quota_query_last_error: self.quota_query_last_error.deep_view(),
            quota_query_last_error_at: self.quota_query_last_error_at,
            usage_updated_at: self.usage_updated_at,
            tags: self.tags.deep_view(),
            user_info_raw: self.user_info_raw.deep_view(),
            subscription_raw: self.subscription_raw.deep_view(),
            quota_raw: self.quota_raw.deep_view(),
            created_at: self.created_at,
            last_used: self.last_used,
        }
    }
}

impl DeepView for ZcodeAccount {
    type V = AccountView;

    open spec fn deep_view(&self) -> AccountView {
        self@
    }
}

/// The address of an account that has none.
pub open spec fn unknown_email() -> Seq<char> {
    "unknown@zcode.local"@
}

/// That address is in its normal form.
pub proof fn lemma_unknown_email_not_blank()
    ensures
        !is_blank(unknown_email()),
        trimmed(unknown_email()) == unknown_email(),
{
    reveal_strlit("unknown@zcode.local");
}

/// A text without the white space around it, or nothing where that leaves it
/// empty.
pub open spec fn normalized(value: Option<Seq<char>>) -> Option<Seq<char>> {
    match value {
        Some(text) => if is_blank(text) {
            None
        } else {
            Some(trimmed(text))
        },
        None => None,
    }
}

/// A text without the white space around it, or nothing where that leaves it
/// empty.
pub fn normalize_string(value: Option<&str>) -> (res: Option<String>)
    ensures
        res.deep_view() == normalized(value.deep_view()),
{
    match value {
        Some(text) => {
            let core = text.trim();
            if core.is_empty() {
                None
            } else {
                Some(core.to_owned())
            }
        },
        None => None,
    }
}

/// `normalize_string` of an optional text.
pub fn normalize_optional(value: &Option<String>) -> (res: Option<String>)
    ensures
        res.deep_view() == normalized(value.deep_view()),
{
    match value {
        Some(text) => normalize_string(Some(text.as_str())),
        None => None,
    }
}

/// Normalizing a text twice changes nothing more.
pub proof fn normalizing_is_idempotent(value: Option<Seq<char>>)
    ensures
        normalized(normalized(value)) == normalized(value),
{
    if value is Some {
        trimming_is_idempotent(value->0);
    }
}

/// The name of an OAuth provider in its normal form.
pub open spec fn normalized_provider(provider: Seq<char>) -> Result<Seq<char>, Seq<char>> {
    let name = ascii_lower(trimmed(provider));
    if name == "zai"@ {
        Ok("zai"@)
    } else if name == "bigmodel"@ {
        Ok("bigmodel"@)
    } else {
        Err("不支持的 ZCode OAuth provider"@)
    }
}

/// The name of an OAuth provider in its normal form.
pub fn normalize_provider(provider: &str) -> (res: Result<String, String>)
    ensures
        outcome(res) == normalized_provider(provider@),
{
    let name = provider.trim().to_ascii_lowercase();
    if same_text(name.as_str(), "zai") {
        Ok("zai".to_owned())
    } else if same_text(name.as_str(), "bigmodel") {
        Ok("bigmodel".to_owned())
    } else {
        Err("不支持的 ZCode OAuth provider".to_owned())
    }
}

/// A provider in its normal form is its own normal form.
pub proof fn normal_providers_stay(provider: Seq<char>)
    requires
        normalized_provider(provider) is Ok,
    ensures
        normalized_provider(normalized_provider(provider)->Ok_0) == normalized_provider(provider),
{
    reveal_strlit("zai");
    reveal_strlit("bigmodel");
    lemma_no_white_space_trims_to_itself("zai"@);
    lemma_no_white_space_trims_to_itself("bigmodel"@);
    assert(ascii_lower("zai"@) =~= "zai"@);
    assert(ascii_lower("bigmodel"@) =~= "bigmodel"@);
}

proof fn lemma_no_white_space_trims_to_itself(s: Seq<char>)
    requires
        s.len() > 0,
        !is_white_space(s.first()),
        !is_white_space(s.last()),
    ensures
        trimmed(s) == s,
{
}

/// Whether one of `tags` is `tag` but for the case of ASCII letters.
pub open spec fn lists_ignoring_case(tags: Seq<Seq<char>>, tag: Seq<char>) -> bool {
    exists|i: int| 0 <= i < tags.len() && ascii_lower(#[trigger] tags[i]) == ascii_lower(tag)
}

/// `tags` trimmed, without the empty ones and without those that differ from an
/// earlier one in the case of ASCII letters only.
pub open spec fn distinct_tags(tags: Seq<Seq<char>>) -> Seq<Seq<char>>
    decreases tags.len(),
{
    if tags.len() == 0 {
        Seq::empty()
    } else {
        let before = distinct_tags(tags.drop_last());
        let tag = trimmed(tags.last());
        if tag.len() == 0 || lists_ignoring_case(before, tag) {
            before
        } else {
            before.push(tag)
        }
    }
}

/// The tags in their normal form, or nothing where none is left.
pub open spec fn normalized_tags(tags: Seq<Seq<char>>) -> Option<Seq<Seq<char>>> {
    if distinct_tags(tags).len() == 0 {
        None
    } else {
        Some(distinct_tags(tags))
    }
}

/// The tags in their normal form, or nothing where none is left.
pub fn normalize_tags(tags: Vec<String>) -> (res: Option<Vec<String>>)
    ensures
        res.deep_view() == normalized_tags(tags.deep_view()),
{
    let ghost all = tags.deep_view();
    let mut values: Vec<String> = Vec::new();
    let mut i: usize = 0;
    assert(values.deep_view() =~= distinct_tags(all.take(0)));
    while i < tags.len()
        invariant
            i <= tags@.len(),
            all == tags.deep_view(),
            values.deep_view() == distinct_tags(all.take(i as int)),
        decreases tags@.len() - i,
    {
        assert(all.take(i + 1).drop_last() =~= all.take(i as int));
        assert(all.take(i + 1).last() == tags@[i as int]@);
        match normalize_string(Some(tags[i].as_str())) {
            Some(tag) => {
                if !lists_tag(&values, tag.as_str()) {
                    let ghost before = values.deep_view();
                    values.push(tag);
                    assert(values.deep_view() =~= before.push(tag@));
                }
            },
            None => {},
        }
        i = i + 1;
    }
    assert(all.take(i as int) =~= all);
    assert(values.deep_view().len() == values@.len());
    if values.is_empty() {
        None
    } else {
        Some(values)
    }
}

fn lists_tag(values: &Vec<String>, tag: &str) -> (res: bool)
    ensures
        res == lists_ignoring_case(values.deep_view(), tag@),
{
    let wanted = tag.to_ascii_lowercase();
    let mut i: usize = 0;
    while i < values.len()
        invariant
            i <= values@.len(),
            wanted@ == ascii_lower(tag@),
            forall|k: int| 0 <= k < i ==> ascii_lower((#[trigger] values@[k])@) != wanted@,
        decreases values@.len() - i,
    {
        if values[i].as_str().to_ascii_lowercase() == wanted {
            assert(values.deep_view()[i as int] == values@[i as int]@);
            return true;
        }
        i = i + 1;
    }
    assert forall|k: int| 0 <= k < values.deep_view().len() implies ascii_lower(
        #[trigger] values.deep_view()[k],
    ) != wanted@ by {
        assert(values.deep_view()[k] == values@[k]@);
    }
    false
}

/// Tags in their normal form are trimmed and not empty, and no two of them are
/// the same but for the case of ASCII letters.
pub proof fn normal_tags_are_distinct(tags: Seq<Seq<char>>)
    ensures
        forall|i: int|
            0 <= i < distinct_tags(tags).len() ==> {
                &&& (#[trigger] distinct_tags(tags)[i]).len() > 0
                &&& trimmed(distinct_tags(tags)[i]) == distinct_tags(tags)[i]
            },
        forall|i: int, j: int|
            0 <= i < j < distinct_tags(tags).len() ==> ascii_lower(#[trigger] distinct_tags(tags)[i])
                != ascii_lower(#[trigger] distinct_tags(tags)[j]),
    decreases tags.len(),
{
    if tags.len() > 0 {
        let before = distinct_tags(tags.drop_last());
        let all = distinct_tags(tags);
        let tag = trimmed(tags.last());
        normal_tags_are_distinct(tags.drop_last());
        trimming_is_idempotent(tags.last());
        if tag.len() > 0 && !lists_ignoring_case(before, tag) {
            assert(all == before.push(tag));
            assert forall|i: int| 0 <= i < all.len() implies (#[trigger] all[i]).len() > 0
                && trimmed(all[i]) == all[i] by {
                if i < before.len() {
                    assert(all[i] == before[i]);
                }
            }
            assert forall|i: int, j: int| 0 <= i < j < all.len() implies ascii_lower(
                #[trigger] all[i],
            ) != ascii_lower(#[trigger] all[j]) by {
                assert(all[i] == before[i]);
                if j < before.len() {
                    assert(all[j] == before[j]);
                }
            }
        } else {
            assert(all == before);
        }
    }
}

/// Each tag that is not blank is still there, perhaps in other ASCII case.
pub proof fn normal_tags_cover_all(tags: Seq<Seq<char>>, k: int)
    requires
        0 <= k < tags.len(),
        !is_blank(tags[k]),
    ensures
        lists_ignoring_case(distinct_tags(tags), trimmed(tags[k])),
    decreases tags.len(),
{
    let before = distinct_tags(tags.drop_last());
    let all = distinct_tags(tags);
    if k == tags.len() - 1 {
        if !lists_ignoring_case(before, trimmed(tags[k])) {
            assert(all[all.len() - 1] == trimmed(tags[k]));
        }
    } else {
        assert(tags.drop_last()[k] == tags[k]);
        normal_tags_cover_all(tags.drop_last(), k);
        let i = choose|i: int|
            0 <= i < before.len() && ascii_lower(#[trigger] before[i]) == ascii_lower(
                trimmed(tags[k]),
            );
        assert(all[i] == before[i]);
    }
}

/// Tags in their normal form are their own normal form.
pub proof fn normalizing_tags_is_idempotent(tags: Seq<Seq<char>>)
    ensures
        distinct_tags(distinct_tags(tags)) == distinct_tags(tags),
{
    normal_tags_are_distinct(tags);
    lemma_distinct_tags_stay(distinct_tags(tags));
}

proof fn lemma_distinct_tags_stay(tags: Seq<Seq<char>>)
    requires
        forall|i: int|
            0 <= i < tags.len() ==> (#[trigger] tags[i]).len() > 0 && trimmed(tags[i]) == tags[i],
        forall|i: int, j: int|
            0 <= i < j < tags.len() ==> ascii_lower(#[trigger] tags[i]) != ascii_lower(
                #[trigger] tags[j],
            ),
    ensures
        distinct_tags(tags) == tags,
    decreases tags.len(),
{
    if tags.len() > 0 {
        let shorter = tags.drop_last();
        assert forall|i: int| 0 <= i < shorter.len() implies (#[trigger] shorter[i]).len() > 0
            && trimmed(shorter[i]) == shorter[i] by {
            assert(shorter[i] == tags[i]);
        }
        assert forall|i: int, j: int| 0 <= i < j < shorter.len() implies ascii_lower(
            #[trigger] shorter[i],
        ) != ascii_lower(#[trigger] shorter[j]) by {
            assert(shorter[i] == tags[i]);
            assert(shorter[j] == tags[j]);
        }
        lemma_distinct_tags_stay(shorter);
        let tag = tags.last();
        assert(tags[tags.len() - 1] == tag);
        assert(!lists_ignoring_case(shorter, tag)) by {
            if lists_ignoring_case(shorter, tag) {
                let i = choose|i: int|
                    0 <= i < shorter.len() && ascii_lower(#[trigger] shorter[i]) == ascii_lower(tag);
                assert(tags[i] == shorter[i]);
            }
        }
        assert(shorter.push(tag) =~= tags);
    } else {
        assert(tags =~= Seq::<Seq<char>>::empty());
    }
}

/// A text in its normal form is the given one without the white space around it,
/// and is never empty; there is none if and only if nothing or only white space
/// was given.
pub proof fn normal_texts_are_trimmed(value: Option<Seq<char>>, text: Seq<char>)
    ensures
        normalized(value) == Some(text) <==> value is Some && text == trimmed(value->0)
            && text.len() > 0,
        normalized(value) is None <==> value is None || trimmed(value->0).len() == 0,
{
}

/// The two providers are known by their names in any case and with any white
/// space around them, each under its own name, and no other provider is.
pub proof fn two_providers_are_known(provider: Seq<char>)
    ensures
        normalized_provider(provider) == Ok::<Seq<char>, Seq<char>>("zai"@) <==> ascii_lower(
            trimmed(provider),
        ) == "zai"@,
        normalized_provider(provider) == Ok::<Seq<char>, Seq<char>>("bigmodel"@) <==> ascii_lower(
            trimmed(provider),
        ) == "bigmodel"@,
        normalized_provider(provider) is Ok <==> ascii_lower(trimmed(provider)) == "zai"@
            || ascii_lower(trimmed(provider)) == "bigmodel"@,
        normalized_provider(provider) is Err ==> normalized_provider(provider)->Err_0
            == "不支持的 ZCode OAuth provider"@,
{
    reveal_strlit("zai");
    reveal_strlit("bigmodel");
    assert("zai"@.len() != "bigmodel"@.len());
}

/// Each tag in the normal form is one of the given ones without the white space
/// around it.
pub proof fn normal_tags_are_given(tags: Seq<Seq<char>>, i: int)
    requires
        0 <= i < distinct_tags(tags).len(),
    ensures
        exists|k: int| 0 <= k < tags.len() && trimmed(#[trigger] tags[k]) == distinct_tags(tags)[i],
    decreases tags.len(),
{
    let before = tags.drop_last();
    if i < distinct_tags(before).len() {
        normal_tags_are_given(before, i);
        let k = choose|k: int|
            0 <= k < before.len() && trimmed(#[trigger] before[k]) == distinct_tags(before)[i];
        assert(trimmed(tags[k]) == distinct_tags(tags)[i]);
    } else {
        assert(trimmed(tags[tags.len() - 1]) == distinct_tags(tags)[i]);
    }
}

/// A further tag is added to the normal form, behind the others and without the
/// white space around it, unless it is blank or one of the given tags is the same
/// but for the case of ASCII letters and the white space around it.
pub proof fn tags_are_added_in_turn(tags: Seq<Seq<char>>, tag: Seq<char>)
    ensures
        ({
            let is_given = exists|k: int|
                0 <= k < tags.len() && ascii_lower(trimmed(#[trigger] tags[k])) == ascii_lower(
                    trimmed(tag),
                );
            &&& distinct_tags(Seq::empty()).len() == 0
            &&& is_blank(tag) || is_given ==> distinct_tags(tags.push(tag)) == distinct_tags(tags)
            &&& !is_blank(tag) && !is_given ==> distinct_tags(tags.push(tag)) == distinct_tags(
                tags,
            ).push(trimmed(tag))
        }),
        normalized_tags(tags) is None <==> forall|k: int|
            0 <= k < tags.len() ==> is_blank(#[trigger] tags[k]),
        normalized_tags(tags) is Some ==> normalized_tags(tags)->0 == distinct_tags(tags),
{
    let normal = distinct_tags(tags);
    assert(tags.push(tag).drop_last() =~= tags);
    if !is_blank(tag) {
        if lists_ignoring_case(normal, trimmed(tag)) {
            let i = choose|i: int|
                0 <= i < normal.len() && ascii_lower(#[trigger] normal[i]) == ascii_lower(
                    trimmed(tag),
                );
            normal_tags_are_given(tags, i);
            let k = choose|k: int| 0 <= k < tags.len() && trimmed(#[trigger] tags[k]) == normal[i];
            assert(ascii_lower(trimmed(tags[k])) == ascii_lower(trimmed(tag)));
        }
        assert forall|k: int|
            0 <= k < tags.len() && ascii_lower(trimmed(#[trigger] tags[k])) == ascii_lower(
                trimmed(tag),
            ) implies lists_ignoring_case(normal, trimmed(tag)) by {
            assert(ascii_lower(trimmed(tags[k])).len() == ascii_lower(trimmed(tag)).len());
            normal_tags_cover_all(tags, k);
            let i = choose|i: int|
                0 <= i < normal.len() && ascii_lower(#[trigger] normal[i]) == ascii_lower(
                    trimmed(tags[k]),
                );
            assert(ascii_lower(normal[i]) == ascii_lower(trimmed(tag)));
        }
    }
    if normal.len() > 0 {
        normal_tags_are_distinct(tags);
        normal_tags_are_given(tags, 0);
        let k = choose|k: int| 0 <= k < tags.len() && trimmed(#[trigger] tags[k]) == normal[0];
        assert(!is_blank(tags[k]));
    } else {
        assert forall|k: int| 0 <= k < tags.len() implies is_blank(#[trigger] tags[k]) by {
            if !is_blank(tags[k]) {
                normal_tags_cover_all(tags, k);
            }
        }
    }
}

/// What is seen of an account is the account, field by field.
pub proof fn accounts_are_seen_whole(account: ZcodeAccount)
    ensures
        account@.id == account.id@,
        account@.provider == account.provider@,
        account@.email == account.email@,
        account@.user_id == account.user_id.deep_view(),
        account@.display_name == account.display_name.deep_view(),
        account@.avatar_url == account.avatar_url.deep_view(),
        account@.access_token == account.access_token@,
        account@.refresh_token == account.refresh_token.deep_view(),
        account@.zcode_jwt_token == account.zcode_jwt_token@,
        account@.expires_at == account.expires_at,
        account@.plan_type == account.plan_type.deep_view(),
        account@.quota_total == account.quota_total,
        account@.quota_used == account.quota_used,
        account@.quota_remaining == account.quota_remaining,
        account@.quota_reset_at == account.quota_reset_at,
        account@.quota_query_last_error == account.quota_query_last_error.deep_view(),
        account@.quota_query_last_error_at == account.quota_query_last_error_at,
        account@.usage_updated_at == account.usage_updated_at,
        account@.tags == account.tags.deep_view(),
        account@.user_info_raw == account.user_info_raw.deep_view(),
        account@.subscription_raw == account.subscription_raw.deep_view(),
        account@.quota_raw == account.quota_raw.deep_view(),
        account@.created_at == account.created_at,
        account@.last_used == account.last_used,
        account.deep_view() == account@,
{
}

/// A text is normalized to itself without the white space around it, or to
/// nothing where that leaves it empty.
pub proof fn texts_are_normalized(
    value: Option<&str>,
    optional: &Option<String>,
    res: Option<String>,
    optional_res: Option<String>,
)
    requires
        call_ensures(normalize_string, (value,), res),
        call_ensures(normalize_optional, (optional,), optional_res),
    ensures
        res is Some <==> value is Some && trimmed(value->0@).len() > 0,
        res is Some ==> res->0@ == trimmed(value->0@),
        optional_res is Some <==> *optional is Some && trimmed(optional->0@).len() > 0,
        optional_res is Some ==> optional_res->0@ == trimmed(optional->0@),
{
    assert(res.deep_view() == normalized(value.deep_view()));
    assert(optional_res.deep_view() == normalized(optional.deep_view()));
}

/// A provider is normalized to one of the two names, and any other is refused.
pub proof fn providers_are_normalized(provider: &str, res: Result<String, String>)
    requires
        call_ensures(normalize_provider, (provider,), res),
    ensures
        res is Ok <==> ascii_lower(trimmed(provider@)) == "zai"@ || ascii_lower(trimmed(provider@))
            == "bigmodel"@,
        res is Ok ==> res->Ok_0@ == ascii_lower(trimmed(provider@)),
        res is Err ==> res->Err_0@ == "不支持的 ZCode OAuth provider"@,
{
}

/// Tags are normalized to those that are left, and to nothing where all are
/// blank; one more is added behind the others unless it is blank or there
/// already.
pub proof fn tags_are_normalized(
    tags: Vec<String>,
    more: Vec<String>,
    tag: String,
    res: Option<Vec<String>>,
    more_res: Option<Vec<String>>,
)
    requires
        more@ == tags@.push(tag),
        call_ensures(normalize_tags, (tags,), res),
        call_ensures(normalize_tags, (more,), more_res),
    ensures
        res is Some <==> exists|k: int| 0 <= k < tags@.len() && !is_blank((#[trigger] tags@[k])@),
        ({
            let is_given = exists|k: int|
                0 <= k < tags@.len() && ascii_lower(trimmed((#[trigger] tags@[k])@))
                    == ascii_lower(trimmed(tag@));
            let before = if res is Some {
                res->0.deep_view()
            } else {
                Seq::empty()
            };
            &&& is_blank(tag@) || is_given ==> more_res.deep_view() == res.deep_view()
            &&& !is_blank(tag@) && !is_given ==> more_res is Some && more_res->0.deep_view()
                == before.push(trimmed(tag@))
        }),
{
    let given = tags.deep_view();
    tags_are_added_in_turn(given, tag@);
    assert(more.deep_view() =~= given.push(tag@));
    assert forall|k: int| 0 <= k < tags@.len() implies given[k] == (#[trigger] tags@[k])@ by {}
    assert forall|k: int| 0 <= k < given.len() implies #[trigger] given[k] == tags@[k]@ by {}
    assert(res.deep_view() == normalized_tags(given));
    assert(more_res.deep_view() == normalized_tags(given.push(tag@)));
    let is_given = exists|k: int|
        0 <= k < given.len() && ascii_lower(trimmed(#[trigger] given[k])) == ascii_lower(
            trimmed(tag@),
        );
    if is_given {
        let k = choose|k: int|
            0 <= k < given.len() && ascii_lower(trimmed(#[trigger] given[k])) == ascii_lower(
                trimmed(tag@),
            );
        assert(ascii_lower(trimmed(tags@[k]@)) == ascii_lower(trimmed(tag@)));
    }
    if res is None {
        assert(distinct_tags(given) =~= Seq::<Seq<char>>::empty());
    } else {
        let k = choose|k: int| 0 <= k < given.len() && !is_blank(#[trigger] given[k]);
        assert(!is_blank(tags@[k]@));
    }
}

}
