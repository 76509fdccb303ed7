//! The identifiers of accounts and the files in which accounts are kept.

use vstd::prelude::*;
use vstd::string::*;
use vstd::utf8::*;
use crate::account::{normalize_string, normalized};
use crate::crypto::{
    draw_uuid, is_drawn_uuid, is_hex_digit, is_random_uuid, md5_digest_hex, md5_hex,
};
use crate::path::{PathStyle, below, closed_base, join_path, path_below, written_below};
use crate::text::{
    chars_of, contains_text, is_blank, joined, lemma_first_not_white_space, occurs_in, outcome,
    trimmed,
};

verus! {

/// The directory of the account files, below the data directory.
pub const ACCOUNTS_DIR: &'static str = "zcode_accounts";

/// The file of the account index, below the data directory.
pub const ACCOUNTS_INDEX_FILE: &'static str = "zcode_accounts.json";

/// By what an account is told from the others of its provider: its user, or
/// else its address.
pub open spec fn account_identity(user_id: Option<Seq<char>>, email: Option<Seq<char>>) -> Option<
    Seq<char>,
> {
    if normalized(user_id) is Some {
        normalized(user_id)
    } else {
        normalized(email)
    }
}

/// The identifier of the account that `identity` stands for at `provider`.
pub open spec fn identifier(provider: Seq<char>, identity: Seq<char>) -> Seq<char> {
    "zcode_"@ + md5_hex(encode_utf8(provider + ":"@ + identity))
}

/// Whether a character may stand in an identifier.
pub open spec fn is_id_char(c: char) -> bool {
    ||| 'a' <= c <= 'z'
    ||| 'A' <= c <= 'Z'
    ||| '0' <= c <= '9'
    ||| c == '_'
    ||| c == '-'
    ||| c == '.'
}

/// Whether an identifier can be the name of a file: it is not empty, consists
/// of ASCII letters and digits, `_`, `-` and `.`, and holds no two dots in a
/// row.
pub open spec fn is_safe_id(id: Seq<char>) -> bool {
    &&& id.len() > 0
    &&& !occurs_in(".."@, id)
    &&& forall|i: int| 0 <= i < id.len() ==> is_id_char(#[trigger] id[i])
}

fn identifier_text(provider: &str, identity: &str) -> (res: String)
    ensures
        res@ == identifier(provider@, identity@),
        is_safe_id(res@),
        res@.len() == 38,
        forall|i: int| 6 <= i < 38 ==> is_hex_digit(#[trigger] res@[i]),
{
    let mut named = joined(provider, ":");
    named.append(identity);
    let digest = md5_digest_hex(named.as_str().as_bytes());
    let res = joined("zcode_", digest.as_str());
    proof {
        reveal_strlit("zcode_");
        reveal_strlit("..");
        assert forall|i: int| 6 <= i < 38 implies is_hex_digit(#[trigger] res@[i]) by {
            assert(res@[i] == digest@[i - 6]);
        }
        assert forall|i: int| 0 <= i < res@.len() implies is_id_char(#[trigger] res@[i])
            && res@[i] != '.' by {
            if i >= 6 {
                assert(res@[i] == digest@[i - 6]);
            }
        }
        if occurs_in(".."@, res@) {
            let k = choose|k: int|
                0 <= k <= res@.len() - ".."@.len() && #[trigger] res@.subrange(k, k + ".."@.len())
                    == ".."@;
            assert(res@.subrange(k, k + 2)[0] == '.');
        }
    }
    res
}

fn identity_text(user_id: Option<&str>, email: Option<&str>) -> (res: Option<String>)
    ensures
        res.deep_view() == account_identity(user_id.deep_view(), email.deep_view()),
{
    match normalize_string(user_id) {
        Some(identity) => Some(identity),
        None => normalize_string(email),
    }
}

/// The identifier of an account, where `fallback` stands for an account that
/// names neither a user nor an address: `zcode_` and 32 hexadecimal digits. It
/// can be the name of a file.
pub fn account_id_or(
    provider: &str,
    user_id: Option<&str>,
    email: Option<&str>,
    fallback: &str,
) -> (res: String)
    ensures
        res@ == identifier(
            provider@,
            match account_identity(user_id.deep_view(), email.deep_view()) {
                Some(identity) => identity,
                None => fallback@,
            },
        ),
        is_safe_id(res@),
        res@.len() == 38,
        forall|i: int| 6 <= i < 38 ==> is_hex_digit(#[trigger] res@[i]),
{
    match identity_text(user_id, email) {
        Some(identity) => identifier_text(provider, identity.as_str()),
        None => identifier_text(provider, fallback),
    }
}

/// The identifier of an account: `zcode_` and 32 hexadecimal digits. An account
/// that names neither a user nor an address gets one by chance.
pub fn account_id(provider: &str, user_id: Option<&str>, email: Option<&str>) -> (res: String)
    ensures
        match account_identity(user_id.deep_view(), email.deep_view()) {
            Some(identity) => res@ == identifier(provider@, identity),
            None => exists|fallback: Seq<char>|
                is_random_uuid(fallback) && is_drawn_uuid(fallback)
                    && res@ == #[trigger] identifier(provider@, fallback),
        },
        is_safe_id(res@),
        res@.len() == 38,
        forall|i: int| 6 <= i < 38 ==> is_hex_digit(#[trigger] res@[i]),
{
    match identity_text(user_id, email) {
        Some(identity) => identifier_text(provider, identity.as_str()),
        None => identifier_text(provider, draw_uuid().as_str()),
    }
}

/// The identifier of an account with a user does not change with its address.
pub proof fn identifiers_follow_the_user(
    user_id: Seq<char>,
    first_email: Option<Seq<char>>,
    second_email: Option<Seq<char>>,
)
    requires
        !is_blank(user_id),
    ensures
        account_identity(Some(user_id), first_email) == Some(trimmed(user_id)),
        account_identity(Some(user_id), first_email) == account_identity(
            Some(user_id),
            second_email,
        ),
{
}

/// An identifier without the white space around it, where it can be the name of
/// a file.
pub open spec fn safe_id(value: Seq<char>) -> Result<Seq<char>, Seq<char>> {
    if is_safe_id(trimmed(value)) {
        Ok(trimmed(value))
    } else {
        Err("ZCode 账号 ID 非法"@)
    }
}

/// An identifier without the white space around it, where it can be the name of
/// a file.
pub fn safe_account_id(value: &str) -> (res: Result<&str, String>)
    ensures
        match res {
            Ok(id) => safe_id(value@) == Ok::<Seq<char>, Seq<char>>(id@),
            Err(message) => safe_id(value@) == Err::<Seq<char>, Seq<char>>(message@),
        },
{
    let id = value.trim();
    if id.is_empty() || contains_text(id, "..") {
        return Err("ZCode 账号 ID 非法".to_owned());
    }
    let chars = chars_of(id);
    let mut i: usize = 0;
    while i < chars.len()
        invariant
            i <= chars@.len(),
            chars@ == id@,
            id@ == trimmed(value@),
            forall|k: int| 0 <= k < i ==> is_id_char(#[trigger] chars@[k]),
        decreases chars@.len() - i,
    {
        let c = chars[i];
        if !(('a' <= c && c <= 'z') || ('A' <= c && c <= 'Z') || ('0' <= c && c <= '9') || c == '_'
            || c == '-' || c == '.') {
            assert(!is_id_char(id@[i as int]));
            return Err("ZCode 账号 ID 非法".to_owned());
        }
        i = i + 1;
    }
    assert(is_safe_id(id@));
    Ok(id)
}

/// The directory of the account files, below the data directory.
pub fn accounts_dir(style: PathStyle, data_dir: Result<String, String>) -> (res: Result<
    String,
    String,
>)
    ensures
        outcome(res) == below(style, outcome(data_dir), ACCOUNTS_DIR@),
{
    match data_dir {
        Ok(base) => Ok(join_path(style, base.as_str(), ACCOUNTS_DIR)),
        Err(message) => Err(message),
    }
}

/// The file of the account index, below the data directory.
pub fn index_path(style: PathStyle, data_dir: Result<String, String>) -> (res: Result<
    String,
    String,
>)
    ensures
        outcome(res) == below(style, outcome(data_dir), ACCOUNTS_INDEX_FILE@),
{
    match data_dir {
        Ok(base) => Ok(join_path(style, base.as_str(), ACCOUNTS_INDEX_FILE)),
        Err(message) => Err(message),
    }
}

/// The file of the account index as a text.
pub fn accounts_index_path_string(style: PathStyle, data_dir: Result<String, String>) -> (res: Result<
    String,
    String,
>)
    ensures
        outcome(res) == below(style, outcome(data_dir), ACCOUNTS_INDEX_FILE@),
{
    index_path(style, data_dir)
}

/// The file of the account `account_id` below the directory of the account
/// files.
pub open spec fn file_of_account(
    style: PathStyle,
    directory: Result<Seq<char>, Seq<char>>,
    account_id: Seq<char>,
) -> Result<Seq<char>, Seq<char>> {
    match (directory, safe_id(account_id)) {
        (Err(message), _) => Err(message),
        (Ok(_), Err(message)) => Err(message),
        (Ok(base), Ok(id)) => Ok(path_below(style, base, id + ".json"@)),
    }
}

/// The file of the account `id` below the directory of the account files.
pub fn account_path(style: PathStyle, directory: Result<String, String>, id: &str) -> (res: Result<
    String,
    String,
>)
    ensures
        outcome(res) == file_of_account(style, outcome(directory), id@),
{
    match directory {
        Ok(base) => match safe_account_id(id) {
            Ok(name) => Ok(join_path(style, base.as_str(), joined(name, ".json").as_str())),
            Err(message) => Err(message),
        },
        Err(message) => Err(message),
    }
}

/// The name of an account file holds no separator and no two dots in a row, so
/// the file lies in the directory of the account files itself.
pub proof fn account_files_stay_in_their_directory(
    style: PathStyle,
    directory: Seq<char>,
    account_id: Seq<char>,
)
    requires
        file_of_account(style, Ok(directory), account_id) is Ok,
    ensures
        ({
            let name = trimmed(account_id) + ".json"@;
            &&& file_of_account(style, Ok(directory), account_id)->Ok_0 == path_below(style, directory, name)
            &&& !name.contains('/')
            &&& !name.contains('\\')
            &&& !occurs_in(".."@, trimmed(account_id))
        }),
{
    reveal_strlit(".json");
    let id = trimmed(account_id);
    let name = id + ".json"@;
    assert forall|i: int| 0 <= i < name.len() implies is_id_char(#[trigger] name[i]) by {
        if i < id.len() {
            assert(name[i] == id[i]);
        } else {
            assert(name[i] == ".json"@[i - id.len()]);
        }
    }
}

/// An identifier that is made for an account is not blank.
pub proof fn made_identifiers_are_not_blank(provider: Seq<char>, identity: Seq<char>)
    ensures
        !is_blank(identifier(provider, identity)),
{
    reveal_strlit("zcode_");
    lemma_first_not_white_space(identifier(provider, identity));
}

/// An identifier that can be the name of a file names one as it stands.
pub proof fn safe_identifiers_name_files(style: PathStyle, directory: Seq<char>, id: Seq<char>)
    requires
        is_safe_id(id),
    ensures
        file_of_account(style, Ok(directory), id) == Ok::<Seq<char>, Seq<char>>(
            path_below(style, directory, id + ".json"@),
        ),
{
    assert(is_id_char(id[0]) && is_id_char(id[id.len() - 1]));
    assert(id.first() == id[0] && id.last() == id[id.len() - 1]);
    assert(trimmed(id) == id);
}

/// Two accounts with different identifiers are kept in different files.
pub proof fn accounts_have_their_own_files(
    style: PathStyle,
    directory: Seq<char>,
    first: Seq<char>,
    second: Seq<char>,
)
    requires
        is_safe_id(trimmed(first)),
        is_safe_id(trimmed(second)),
        trimmed(first) != trimmed(second),
    ensures
        file_of_account(style, Ok(directory), first) is Ok,
        file_of_account(style, Ok(directory), second) is Ok,
        file_of_account(style, Ok(directory), first) != file_of_account(style, Ok(directory), second),
{
    reveal_strlit(".json");
    let a = trimmed(first);
    let b = trimmed(second);
    let before = closed_base(style, directory);
    let names = (a + ".json"@, b + ".json"@);
    lemma_file_name_is_written_as_it_stands(style, directory, a);
    lemma_file_name_is_written_as_it_stands(style, directory, b);
    if before + names.0 == before + names.1 {
        assert((before + names.0).len() == before.len() + a.len() + ".json"@.len());
        assert((before + names.1).len() == before.len() + b.len() + ".json"@.len());
        assert forall|i: int| 0 <= i < a.len() implies a[i] == b[i] by {
            assert((before + names.0)[before.len() + i] == a[i]);
            assert((before + names.1)[before.len() + i] == b[i]);
        }
        assert(a =~= b);
    }
}

proof fn lemma_file_name_is_written_as_it_stands(
    style: PathStyle,
    directory: Seq<char>,
    id: Seq<char>,
)
    requires
        is_safe_id(id),
    ensures
        written_below(style, directory, id + ".json"@) == id + ".json"@,
{
    reveal_strlit(".json");
    let name = id + ".json"@;
    assert forall|i: int| 0 <= i < name.len() implies name[i] != '/' by {
        if i < id.len() {
            assert(is_id_char(id[i]));
            assert(name[i] == id[i]);
        } else {
            assert(name[i] == ".json"@[i - id.len()]);
        }
    }
    assert(written_below(style, directory, name) =~= name);
}

/// The accounts and their index are kept under these names in the data
/// directory.
pub proof fn account_files_have_these_names(style: PathStyle, data_dir: Seq<char>)
    ensures
        below(style, Ok(data_dir), ACCOUNTS_DIR@) == Ok::<Seq<char>, Seq<char>>(
            path_below(style, data_dir, "zcode_accounts"@),
        ),
        below(style, Ok(data_dir), ACCOUNTS_INDEX_FILE@) == Ok::<Seq<char>, Seq<char>>(
            path_below(style, data_dir, "zcode_accounts.json"@),
        ),
{
}

/// An account is told by its user, and by its address where it has no user: its
/// identifier is `zcode_` and the MD5 digest of the provider and of that, with a
/// colon between them.
pub proof fn identifiers_are_digests(
    provider: Seq<char>,
    user_id: Option<Seq<char>>,
    email: Option<Seq<char>>,
)
    ensures
        ({
            let has_user = user_id is Some && trimmed(user_id->0).len() > 0;
            let has_email = email is Some && trimmed(email->0).len() > 0;
            let identity = account_identity(user_id, email);
            &&& has_user ==> identity is Some && identifier(provider, identity->0) == "zcode_"@
                + md5_hex(encode_utf8(provider + ":"@ + trimmed(user_id->0)))
            &&& !has_user && has_email ==> identity is Some && identifier(provider, identity->0)
                == "zcode_"@ + md5_hex(encode_utf8(provider + ":"@ + trimmed(email->0)))
            &&& !has_user && !has_email ==> identity is None
        }),
{
}

/// An identifier is taken, without the white space around it, if and only if
/// that leaves something, made of ASCII letters and digits, `_`, `-` and single
/// dots; any other is refused with one message.
pub proof fn safe_identifiers_are_plain(value: Seq<char>)
    ensures
        ({
            let id = trimmed(value);
            let is_plain_id = {
                &&& id.len() > 0
                &&& forall|i: int|
                    0 <= i < id.len() ==> {
                        ||| 'a' <= #[trigger] id[i] <= 'z'
                        ||| 'A' <= id[i] <= 'Z'
                        ||| '0' <= id[i] <= '9'
                        ||| id[i] == '_'
                        ||| id[i] == '-'
                        ||| id[i] == '.'
                    }
                &&& forall|i: int, j: int|
                    0 <= i && j == i + 1 && j < id.len() && #[trigger] id[i] == '.'
                        ==> #[trigger] id[j] != '.'
            };
            &&& is_plain_id ==> safe_id(value) == Ok::<Seq<char>, Seq<char>>(id)
            &&& !is_plain_id ==> safe_id(value) == Err::<Seq<char>, Seq<char>>(
                "ZCode 账号 ID 非法"@,
            )
        }),
{
    reveal_strlit("..");
    let id = trimmed(value);
    assert forall|i: int, j: int|
        0 <= i && j == i + 1 && j < id.len() && #[trigger] id[i] == '.' && #[trigger] id[j]
            == '.' implies occurs_in(".."@, id) by {
        assert(id.subrange(i, i + ".."@.len()) =~= ".."@);
    }
    if occurs_in(".."@, id) {
        let i = choose|i: int|
            0 <= i <= id.len() - ".."@.len() && #[trigger] id.subrange(i, i + ".."@.len()) == ".."@;
        assert(id.subrange(i, i + 2)[0] == id[i]);
        assert(id.subrange(i, i + 2)[1] == id[i + 1]);
    }
}

/// An account is kept in the directory of the account files under its
/// identifier, without the white space around it, and `.json`. Where the
/// directory is not known that is the error, and else that the identifier can
/// be no name.
pub proof fn account_files_are_named_by_identifier(
    style: PathStyle,
    directory: Seq<char>,
    message: Seq<char>,
    id: Seq<char>,
)
    ensures
        file_of_account(style, Err(message), id) == Err::<Seq<char>, Seq<char>>(message),
        safe_id(id) is Ok ==> file_of_account(style, Ok(directory), id) == Ok::<
            Seq<char>,
            Seq<char>,
        >(path_below(style, directory, trimmed(id) + ".json"@)),
        safe_id(id) is Err ==> file_of_account(style, Ok(directory), id) == Err::<
            Seq<char>,
            Seq<char>,
        >("ZCode 账号 ID 非法"@),
{
}

/// An account gets the identifier of its user, or of its address where it has no
/// user; one that has neither gets one by chance, or that of the given text.
pub proof fn accounts_get_their_identifier(
    provider: &str,
    user_id: Option<&str>,
    email: Option<&str>,
    fallback: &str,
    res: String,
    with_fallback: String,
)
    requires
        call_ensures(account_id, (provider, user_id, email), res),
        call_ensures(account_id_or, (provider, user_id, email, fallback), with_fallback),
    ensures
        ({
            let has_user = user_id is Some && trimmed(user_id->0@).len() > 0;
            let has_email = email is Some && trimmed(email->0@).len() > 0;
            let of_user = "zcode_"@ + md5_hex(
                encode_utf8(provider@ + ":"@ + trimmed(user_id->0@)),
            );
            let of_email = "zcode_"@ + md5_hex(encode_utf8(provider@ + ":"@ + trimmed(email->0@)));
            &&& has_user ==> res@ == of_user && with_fallback@ == of_user
            &&& !has_user && has_email ==> res@ == of_email && with_fallback@ == of_email
            &&& !has_user && !has_email ==> with_fallback@ == "zcode_"@ + md5_hex(
                encode_utf8(provider@ + ":"@ + fallback@),
            )
            &&& !has_user && !has_email ==> exists|chance: Seq<char>|
                is_random_uuid(chance) && is_drawn_uuid(chance) && res@ == "zcode_"@ + md5_hex(
                    #[trigger] encode_utf8(provider@ + ":"@ + chance),
                )
        }),
        safe_id(res@) is Ok,
        safe_id(with_fallback@) is Ok,
{
    identifiers_are_digests(provider@, user_id.deep_view(), email.deep_view());
    safe_identifiers_name_files(PathStyle::Unix, Seq::empty(), res@);
    safe_identifiers_name_files(PathStyle::Unix, Seq::empty(), with_fallback@);
    if account_identity(user_id.deep_view(), email.deep_view()) is None {
        let chance = choose|chance: Seq<char>|
            is_random_uuid(chance) && is_drawn_uuid(chance)
                && res@ == #[trigger] identifier(provider@, chance);
        assert(res@ == "zcode_"@ + md5_hex(encode_utf8(provider@ + ":"@ + chance)));
    }
}

/// The accounts and their index lie below the data directory under their names,
/// each account under its identifier.
pub proof fn accounts_lie_below_the_data_directory(
    style: PathStyle,
    data_dir: String,
    id: &str,
    directory: Result<String, String>,
    index: Result<String, String>,
    shown: Result<String, String>,
    safe: Result<&str, String>,
    file: Result<String, String>,
)
    requires
        call_ensures(accounts_dir, (style, Ok(data_dir)), directory),
        call_ensures(index_path, (style, Ok(data_dir)), index),
        call_ensures(accounts_index_path_string, (style, Ok(data_dir)), shown),
        call_ensures(safe_account_id, (id,), safe),
        call_ensures(account_path, (style, Ok(data_dir), id), file),
    ensures
        directory is Ok && directory->Ok_0@ == path_below(style, data_dir@, "zcode_accounts"@),
        index is Ok && index->Ok_0@ == path_below(style, data_dir@, "zcode_accounts.json"@),
        shown is Ok && shown->Ok_0@ == index->Ok_0@,
        safe is Ok <==> safe_id(id@) is Ok,
        safe is Ok ==> safe->Ok_0@ == trimmed(id@),
        safe is Err ==> safe->Err_0@ == "ZCode 账号 ID 非法"@,
        file is Ok <==> safe is Ok,
        file is Ok ==> file->Ok_0@ == path_below(style, data_dir@, trimmed(id@) + ".json"@),
        file is Err ==> file->Err_0@ == "ZCode 账号 ID 非法"@,
{
}

}
