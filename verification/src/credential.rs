//! The `enc:v1:` form in which the ZCode client keeps a credential, and the
//! secret from which its key is made.

use vstd::prelude::*;
use vstd::string::*;
use vstd::utf8::*;
use crate::crypto::{
    aes256gcm_open, aes256gcm_seal, aes_open, aes_seal, draw_nonce, is_drawn_nonce, max_plain,
    sha256, sha256_digest,
};
use crate::encoding::{
    base64_decode, base64_encode, base64_error, base64_fits, base64url, base64url_bytes,
    is_base64url, lemma_base64_has_no_dot, lemma_base64_reads_back, utf8_decode, utf8_error,
};
use crate::text::{
    begins_with, joined, joined_with, joining_undoes_splitting, lemma_split_at_separator,
    lemma_split_whole, outcome, same_text, split_on, split_text,
};

verus! {

/// What an encrypted credential begins with.
pub const CREDENTIAL_PREFIX: &'static str = "enc:v1:";

/// What the environment of a process says about who runs it: the value of
/// `ZCODE_CREDENTIAL_SECRET`, the name of the operating system, and the values
/// of `USER` and `USERNAME`.
#[derive(Debug, PartialEq)]
pub struct HostIdentity {
    pub secret: Option<String>,
    pub os: String,
    pub user: Option<String>,
    pub username: Option<String>,
}

/// What a `HostIdentity` stands for.
pub struct HostIdentityView {
    pub secret: Option<Seq<char>>,
    pub os: Seq<char>,
    pub user: Option<Seq<char>>,
    pub username: Option<Seq<char>>,
}

impl View for HostIdentity {
    type V = HostIdentityView;

    open spec fn view(&self) -> HostIdentityView {
        HostIdentityView {
            secret: self.secret.deep_view(),
            os: self.os@,
            user: self.user.deep_view(),
            username: self.username.deep_view(),
        }
    }
}

/// The name by which the ZCode client calls an operating system.
pub open spec fn platform_of(os: Seq<char>) -> Seq<char> {
    if os == "macos"@ {
        "darwin"@
    } else if os == "windows"@ {
        "win32"@
    } else {
        os
    }
}

/// The name by which the ZCode client calls an operating system.
pub fn platform_name(os: &str) -> (res: String)
    ensures
        res@ == platform_of(os@),
{
    if same_text(os, "macos") {
        "darwin".to_owned()
    } else if same_text(os, "windows") {
        "win32".to_owned()
    } else {
        os.to_owned()
    }
}

/// The user's name out of `USER`, or else `USERNAME`, or else `unknown`.
pub open spec fn user_name_of(user: Option<Seq<char>>, username: Option<Seq<char>>) -> Seq<char> {
    match (user, username) {
        (Some(name), _) => name,
        (None, Some(name)) => name,
        (None, None) => "unknown"@,
    }
}

/// The user's name out of the values of `USER` and `USERNAME`.
pub fn username(user: &Option<String>, otherwise: &Option<String>) -> (res: String)
    ensures
        res@ == user_name_of(user.deep_view(), otherwise.deep_view()),
{
    match user {
        Some(name) => name.clone(),
        None => match otherwise {
            Some(name) => name.clone(),
            None => "unknown".to_owned(),
        },
    }
}

/// The secret that is used where the environment names none.
pub open spec fn fallback_secret(
    platform: Seq<char>,
    home_dir: Seq<char>,
    username: Seq<char>,
) -> Seq<char> {
    "zcode-credential-fallback:"@ + platform + ":"@ + home_dir + ":"@ + username
}

/// The secret that is used where the environment names none.
pub fn fallback_credential_secret(platform: &str, home_dir: &str, username: &str) -> (res: String)
    ensures
        res@ == fallback_secret(platform@, home_dir@, username@),
{
    let mut res = joined("zcode-credential-fallback:", platform);
    res.append(":");
    res.append(home_dir);
    res.append(":");
    res.append(username);
    res
}

/// The secret for the home directory `home_dir`: the one that the environment
/// names, unless it is empty, or else the fallback.
pub open spec fn secret_for_home(home_dir: Seq<char>, host: HostIdentityView) -> Seq<char> {
    if host.secret is Some && host.secret->0.len() > 0 {
        host.secret->0
    } else {
        fallback_secret(platform_of(host.os), home_dir, user_name_of(host.user, host.username))
    }
}

/// The secret for the home directory `home_dir`.
pub fn credential_secret_for_home(home_dir: &str, host: &HostIdentity) -> (res: String)
    ensures
        res@ == secret_for_home(home_dir@, host@),
{
    match &host.secret {
        Some(secret) => {
            if !secret.as_str().is_empty() {
                return secret.clone();
            }
        },
        None => {},
    }
    let platform = platform_name(host.os.as_str());
    let name = username(&host.user, &host.username);
    fallback_credential_secret(platform.as_str(), home_dir, name.as_str())
}

/// The key that a secret gives.
pub open spec fn key_of_secret(secret: Seq<char>) -> Seq<u8> {
    sha256(encode_utf8(secret))
}

/// The key that is used for the home directory `home_dir`.
pub open spec fn key_for_home(home_dir: Seq<char>, host: HostIdentityView) -> Seq<u8> {
    key_of_secret(secret_for_home(home_dir, host))
}

/// The key that is used for the home directory `home_dir`.
pub fn credential_key(home_dir: &str, host: &HostIdentity) -> (res: [u8; 32])
    ensures
        res@ == key_for_home(home_dir@, host@),
{
    sha256_digest(credential_secret_for_home(home_dir, host).as_str().as_bytes())
}

/// The key that the fallback secret gives.
pub fn credential_key_from_fallback(platform: &str, home_dir: &str, username: &str) -> (res: [u8;
    32])
    ensures
        res@ == key_of_secret(fallback_secret(platform@, home_dir@, username@)),
{
    sha256_digest(fallback_credential_secret(platform, home_dir, username).as_str().as_bytes())
}

/// The bytes that one part of an encrypted credential encodes.
pub open spec fn decoded_component(value: Seq<char>) -> Result<Seq<u8>, Seq<char>> {
    if is_base64url(value) {
        Ok(base64url_bytes(value))
    } else {
        Err("解析 ZCode 凭据密文失败: "@ + base64_error(value))
    }
}

/// The bytes that one part of an encrypted credential encodes.
pub fn decode_component(value: &str) -> (res: Result<Vec<u8>, String>)
    ensures
        match res {
            Ok(bytes) => decoded_component(value@) == Ok::<Seq<u8>, Seq<char>>(bytes@),
            Err(message) => decoded_component(value@) == Err::<Seq<u8>, Seq<char>>(message@),
        },
{
    match base64_decode(value) {
        Ok(bytes) => {
            proof {
                lemma_base64_reads_back(bytes@);
            }
            Ok(bytes)
        },
        Err(message) => Err(joined("解析 ZCode 凭据密文失败: ", message.as_str())),
    }
}

/// The text behind the prefix of an encrypted credential.
pub open spec fn behind_prefix(value: Seq<char>) -> Seq<char> {
    value.skip(CREDENTIAL_PREFIX@.len() as int)
}

/// What the cipher's reply becomes: the text that the opened bytes encode.
pub open spec fn opened_text_of(opened: Option<Seq<u8>>) -> Result<Seq<char>, Seq<char>> {
    match opened {
        None => Err("ZCode 凭据解密失败，当前用户或 HOME 与写入环境不一致"@),
        Some(plain) => if valid_utf8(plain) {
            Ok(decode_utf8(plain))
        } else {
            Err("ZCode 凭据不是有效 UTF-8: "@ + utf8_error(plain))
        },
    }
}

/// What the cipher's reply becomes: the text that the opened bytes encode.
pub fn opened_text(opened: Option<Vec<u8>>) -> (res: Result<String, String>)
    ensures
        outcome(res) == opened_text_of(
            match opened {
                Some(plain) => Some(plain@),
                None => None,
            },
        ),
{
    match opened {
        None => Err("ZCode 凭据解密失败，当前用户或 HOME 与写入环境不一致".to_owned()),
        Some(plain) => match utf8_decode(plain) {
            Ok(text) => Ok(text),
            Err(message) => Err(joined("ZCode 凭据不是有效 UTF-8: ", message.as_str())),
        },
    }
}

/// What the three decoded parts of a credential become under `key`: the nonce,
/// the tag and the ciphertext.
pub open spec fn opened_parts(
    nonce: Seq<u8>,
    tag: Seq<u8>,
    body: Seq<u8>,
    key: Seq<u8>,
) -> Result<Seq<char>, Seq<char>> {
    if nonce.len() != 12 || tag.len() != 16 {
        Err("ZCode 凭据密文参数无效"@)
    } else {
        opened_text_of(aes256gcm_open(key, nonce, body + tag))
    }
}

/// What a credential means under `key`: itself where it lacks the prefix, and
/// else the text that its three parts seal.
pub open spec fn decrypted(value: Seq<char>, key: Seq<u8>) -> Result<Seq<char>, Seq<char>> {
    let parts = split_on(behind_prefix(value), '.');
    if !CREDENTIAL_PREFIX@.is_prefix_of(value) {
        Ok(value)
    } else if parts.len() != 3 {
        Err("ZCode 凭据密文格式无效"@)
    } else {
        match (
            decoded_component(parts[0]),
            decoded_component(parts[1]),
            decoded_component(parts[2]),
        ) {
            (Err(message), _, _) => Err(message),
            (Ok(_), Err(message), _) => Err(message),
            (Ok(_), Ok(_), Err(message)) => Err(message),
            (Ok(nonce), Ok(tag), Ok(body)) => opened_parts(nonce, tag, body, key),
        }
    }
}

/// What a credential means under `key`.
pub fn decrypt_credential_with_key(value: &str, key: &[u8; 32]) -> (res: Result<String, String>)
    ensures
        outcome(res) == decrypted(value@, key@),
{
    if !begins_with(value, CREDENTIAL_PREFIX) {
        return Ok(value.to_owned());
    }
    let rest = value.substring_char(CREDENTIAL_PREFIX.unicode_len(), value.unicode_len());
    assert(rest@ == behind_prefix(value@));
    let parts = split_text(rest, '.');
    assert(parts@.len() == parts.deep_view().len());
    if parts.len() != 3 {
        return Err("ZCode 凭据密文格式无效".to_owned());
    }
    assert(parts.deep_view()[0] == parts@[0]@);
    assert(parts.deep_view()[1] == parts@[1]@);
    assert(parts.deep_view()[2] == parts@[2]@);
    let nonce = match decode_component(parts[0].as_str()) {
        Ok(bytes) => bytes,
        Err(message) => return Err(message),
    };
    let tag = match decode_component(parts[1].as_str()) {
        Ok(bytes) => bytes,
        Err(message) => return Err(message),
    };
    let mut sealed = match decode_component(parts[2].as_str()) {
        Ok(bytes) => bytes,
        Err(message) => return Err(message),
    };
    if nonce.len() != 12 || tag.len() != 16 {
        return Err("ZCode 凭据密文参数无效".to_owned());
    }
    let ghost body = sealed@;
    let mut tag = tag;
    let ghost tag_bytes = tag@;
    sealed.append(&mut tag);
    assert(sealed@ =~= body + tag_bytes);
    opened_text(aes_open(key, nonce.as_slice(), sealed.as_slice()))
}

/// What a credential means under the key for the home directory `home_dir`.
pub fn decrypt_credential(value: &str, home_dir: &str, host: &HostIdentity) -> (res: Result<
    String,
    String,
>)
    ensures
        outcome(res) == decrypted(value@, key_for_home(home_dir@, host@)),
{
    decrypt_credential_with_key(value, &credential_key(home_dir, host))
}

/// Whether a text of which the UTF-8 form has `len` bytes can be encrypted: the
/// cipher takes it, and the base64 text of what it seals fits in memory.
pub open spec fn credential_fits(len: nat) -> bool {
    len <= max_plain() && base64_fits(len)
}

/// The text in which a sealed credential is kept: its nonce, its tag (the last
/// 16 bytes) and its ciphertext, in base64 with dots between them.
pub open spec fn sealed_credential(nonce: Seq<u8>, sealed: Seq<u8>) -> Result<
    Seq<char>,
    Seq<char>,
> {
    if sealed.len() < 16 {
        Err("ZCode 凭据加密结果无效"@)
    } else {
        let body = sealed.take(sealed.len() - 16);
        let tag = sealed.skip(sealed.len() - 16);
        Ok(CREDENTIAL_PREFIX@ + base64url(nonce) + "."@ + base64url(tag) + "."@ + base64url(body))
    }
}

/// The text in which a sealed credential is kept.
pub fn sealed_credential_text(nonce: &[u8; 12], sealed: Vec<u8>) -> (res: Result<String, String>)
    requires
        sealed@.len() >= 16 ==> base64_fits((sealed@.len() - 16) as nat),
    ensures
        outcome(res) == sealed_credential(nonce@, sealed@),
{
    if sealed.len() < 16 {
        return Err("ZCode 凭据加密结果无效".to_owned());
    }
    let ghost whole = sealed@;
    let mut body = sealed;
    let at: usize = body.len() - 16;
    let tag = body.split_off(at);
    assert(body@ =~= whole.take(whole.len() - 16));
    assert(tag@ =~= whole.skip(whole.len() - 16));
    let mut text = joined(CREDENTIAL_PREFIX, base64_encode(nonce.as_slice()).as_str());
    text.append(".");
    text.append(base64_encode(tag.as_slice()).as_str());
    text.append(".");
    text.append(base64_encode(body.as_slice()).as_str());
    Ok(text)
}

/// A sealed credential has the prefix, and behind it exactly three parts with
/// dots between them: the base64 texts of the nonce, the tag and the
/// ciphertext.
pub proof fn sealed_credential_shape(nonce: Seq<u8>, sealed: Seq<u8>)
    requires
        sealed.len() >= 16,
    ensures
        ({
            let text = sealed_credential(nonce, sealed)->Ok_0;
            &&& sealed_credential(nonce, sealed) is Ok
            &&& CREDENTIAL_PREFIX@.is_prefix_of(text)
            &&& split_on(behind_prefix(text), '.') == seq![
                base64url(nonce),
                base64url(sealed.skip(sealed.len() - 16)),
                base64url(sealed.take(sealed.len() - 16)),
            ]
        }),
{
    reveal_strlit(".");
    let body = sealed.take(sealed.len() - 16);
    let tag = sealed.skip(sealed.len() - 16);
    let text = sealed_credential(nonce, sealed)->Ok_0;
    assert("."@ =~= seq!['.']);
    assert(behind_prefix(text) =~= base64url(nonce) + seq!['.'] + (base64url(tag) + seq!['.']
        + base64url(body)));
    assert(text.subrange(0, CREDENTIAL_PREFIX@.len() as int) =~= CREDENTIAL_PREFIX@);
    lemma_split_at_separator(base64url(nonce), base64url(tag) + seq!['.'] + base64url(body), '.');
    lemma_split_at_separator(base64url(tag), base64url(body), '.');
    lemma_base64_has_no_dot(nonce);
    lemma_base64_has_no_dot(tag);
    lemma_base64_has_no_dot(body);
    lemma_split_whole(base64url(nonce), '.');
    lemma_split_whole(base64url(tag), '.');
    lemma_split_whole(base64url(body), '.');
    assert(split_on(behind_prefix(text), '.') =~= seq![
        base64url(nonce),
        base64url(tag),
        base64url(body),
    ]);
}

/// Decrypting a credential that seals `value` under `key` gives `value` back.
pub proof fn decrypting_undoes_sealing(
    value: Seq<char>,
    key: Seq<u8>,
    nonce: Seq<u8>,
    sealed: Seq<u8>,
)
    requires
        nonce.len() == 12,
        sealed.len() >= 16,
        aes256gcm_open(key, nonce, sealed) == Some(encode_utf8(value)),
    ensures
        decrypted(sealed_credential(nonce, sealed)->Ok_0, key) == Ok::<Seq<char>, Seq<char>>(value),
{
    sealed_credential_shape(nonce, sealed);
    let body = sealed.take(sealed.len() - 16);
    let tag = sealed.skip(sealed.len() - 16);
    lemma_base64_reads_back(nonce);
    lemma_base64_reads_back(tag);
    lemma_base64_reads_back(body);
    assert(body + tag =~= sealed);
    encode_utf8_valid_utf8(value);
    encode_utf8_decode_utf8(value);
}

/// A text without the prefix is what it means, under any key.
pub proof fn unencrypted_credentials_stay(value: Seq<char>, key: Seq<u8>)
    requires
        !CREDENTIAL_PREFIX@.is_prefix_of(value),
    ensures
        decrypted(value, key) == Ok::<Seq<char>, Seq<char>>(value),
{
}

/// What encrypting `value` under `key` with the nonce `nonce` gives.
pub open spec fn encrypted(value: Seq<char>, key: Seq<u8>, nonce: Seq<u8>) -> Result<
    Seq<char>,
    Seq<char>,
> {
    if credential_fits(encode_utf8(value).len()) {
        sealed_credential(nonce, aes256gcm_seal(key, nonce, encode_utf8(value)))
    } else {
        Err("加密 ZCode 凭据失败"@)
    }
}

/// Whether `text` looks like the encrypted form of a text of `len` bytes: the
/// prefix, and behind it the base64 texts of 12, 16 and `len` bytes with dots
/// between them.
pub open spec fn has_official_shape(text: Seq<char>, len: nat) -> bool {
    let parts = split_on(behind_prefix(text), '.');
    &&& CREDENTIAL_PREFIX@.is_prefix_of(text)
    &&& parts.len() == 3
    &&& parts[0].len() == 16
    &&& parts[1].len() == 22
    &&& parts[2].len() == (4 * len + 2) / 3
}

/// Encrypts `value` under `key` with the nonce `nonce`. A text that is too
/// large is refused; every other one is encrypted, and decrypting the result
/// under the same key gives it back.
pub fn encrypt_credential_with_nonce(value: &str, key: &[u8; 32], nonce: &[u8; 12]) -> (res: Result<
    String,
    String,
>)
    ensures
        outcome(res) == encrypted(value@, key@, nonce@),
        res is Ok <==> credential_fits(encode_utf8(value@).len()),
        res matches Ok(text) ==> has_official_shape(text@, encode_utf8(value@).len()) && decrypted(
            text@,
            key@,
        ) == Ok::<Seq<char>, Seq<char>>(value@),
{
    let bytes = value.as_bytes();
    if bytes.len() / 3 > (isize::MAX as usize - 4) / 4 {
        return Err("加密 ZCode 凭据失败".to_owned());
    }
    match aes_seal(key, nonce, bytes) {
        None => Err("加密 ZCode 凭据失败".to_owned()),
        Some(sealed) => {
            proof {
                decrypting_undoes_sealing(value@, key@, nonce@, sealed@);
                sealed_credential_shape(nonce@, sealed@);
            }
            sealed_credential_text(nonce, sealed)
        },
    }
}

/// Encrypts `value` under the key for the home directory `home_dir`, with a
/// nonce by chance. Decrypting the result for the same home directory gives
/// `value` back.
pub fn encrypt_credential(value: &str, home_dir: &str, host: &HostIdentity) -> (res: Result<
    String,
    String,
>)
    ensures
        exists|nonce: [u8; 12]|
            is_drawn_nonce(nonce@) && outcome(res) == #[trigger] encrypted(
                value@,
                key_for_home(home_dir@, host@),
                nonce@,
            ),
        res is Ok <==> credential_fits(encode_utf8(value@).len()),
        res matches Ok(text) ==> has_official_shape(text@, encode_utf8(value@).len()) && decrypted(
            text@,
            key_for_home(home_dir@, host@),
        ) == Ok::<
            Seq<char>,
            Seq<char>,
        >(value@),
{
    let nonce = draw_nonce();
    encrypt_credential_with_nonce(value, &credential_key(home_dir, host), &nonce)
}

/// What is seen of who runs a process is what its environment says.
pub proof fn hosts_are_seen_whole(host: HostIdentity)
    ensures
        host@.secret == host.secret.deep_view(),
        host@.os == host.os@,
        host@.user == host.user.deep_view(),
        host@.username == host.username.deep_view(),
{
}

/// The secret is the one that the environment names, unless that is empty. Else
/// it is made of the platform as the client calls it, the home directory, and the
/// user's name out of `USER`, or else `USERNAME`, or else `unknown`.
pub proof fn secrets_are_named_or_made(home: Seq<char>, host: HostIdentityView)
    ensures
        ({
            let platform = if host.os == "macos"@ {
                "darwin"@
            } else if host.os == "windows"@ {
                "win32"@
            } else {
                host.os
            };
            let user = if host.user is Some {
                host.user->0
            } else if host.username is Some {
                host.username->0
            } else {
                "unknown"@
            };
            &&& host.secret is Some && host.secret->0.len() > 0 ==> secret_for_home(home, host)
                == host.secret->0
            &&& host.secret is None || host.secret->0.len() == 0 ==> secret_for_home(home, host)
                == "zcode-credential-fallback:"@ + platform + ":"@ + home + ":"@ + user
        }),
        key_for_home(home, host) == sha256(encode_utf8(secret_for_home(home, host))),
{
}

/// The platforms and users have these names, and the fallback is made of them.
pub proof fn fallbacks_name_platform_home_and_user(
    os: Seq<char>,
    user: Option<Seq<char>>,
    username: Option<Seq<char>>,
    home: Seq<char>,
)
    ensures
        os == "macos"@ ==> platform_of(os) == "darwin"@,
        os == "windows"@ ==> platform_of(os) == "win32"@,
        os != "macos"@ && os != "windows"@ ==> platform_of(os) == os,
        user is Some ==> user_name_of(user, username) == user->0,
        user is None && username is Some ==> user_name_of(user, username) == username->0,
        user is None && username is None ==> user_name_of(user, username) == "unknown"@,
        fallback_secret(os, home, user_name_of(user, username)) == "zcode-credential-fallback:"@
            + os + ":"@ + home + ":"@ + user_name_of(user, username),
        key_of_secret(home) == sha256(encode_utf8(home)),
{
    reveal_strlit("macos");
    reveal_strlit("windows");
    assert("macos"@.len() != "windows"@.len());
}

/// A part of a credential is read as the bytes of which it is the base64 text;
/// any other text is refused with the message of the decoder.
pub proof fn parts_are_read_as_base64(data: Seq<u8>, text: Seq<char>)
    ensures
        decoded_component(base64url(data)) == Ok::<Seq<u8>, Seq<char>>(data),
        (forall|bytes: Seq<u8>| #[trigger] base64url(bytes) != text) ==> decoded_component(text)
            == Err::<Seq<u8>, Seq<char>>("解析 ZCode 凭据密文失败: "@ + base64_error(text)),
{
    lemma_base64_reads_back(data);
}

/// What the cipher opened is the text that its bytes encode; bytes that encode
/// none, and a cipher that opened nothing, are refused.
pub proof fn opened_bytes_are_text(plain: Seq<u8>, text: Seq<char>)
    ensures
        opened_text_of(Some(encode_utf8(text))) == Ok::<Seq<char>, Seq<char>>(text),
        !valid_utf8(plain) ==> opened_text_of(Some(plain)) == Err::<Seq<char>, Seq<char>>(
            "ZCode 凭据不是有效 UTF-8: "@ + utf8_error(plain),
        ),
        opened_text_of(None) == Err::<Seq<char>, Seq<char>>(
            "ZCode 凭据解密失败，当前用户或 HOME 与写入环境不一致"@,
        ),
{
    encode_utf8_valid_utf8(text);
    encode_utf8_decode_utf8(text);
}

proof fn lemma_three_parts(first: Seq<char>, second: Seq<char>, third: Seq<char>)
    requires
        !first.contains('.'),
        !second.contains('.'),
        !third.contains('.'),
    ensures
        ({
            let text = "enc:v1:"@ + first + "."@ + second + "."@ + third;
            &&& CREDENTIAL_PREFIX@.is_prefix_of(text)
            &&& split_on(behind_prefix(text), '.') == seq![first, second, third]
        }),
{
    reveal_strlit(".");
    assert("."@ =~= seq!['.']);
    let text = "enc:v1:"@ + first + "."@ + second + "."@ + third;
    assert(text.subrange(0, CREDENTIAL_PREFIX@.len() as int) =~= CREDENTIAL_PREFIX@);
    assert(behind_prefix(text) =~= first + seq!['.'] + (second + seq!['.'] + third));
    lemma_split_at_separator(first, second + seq!['.'] + third, '.');
    lemma_split_at_separator(second, third, '.');
    lemma_split_whole(first, '.');
    lemma_split_whole(second, '.');
    lemma_split_whole(third, '.');
    assert(split_on(behind_prefix(text), '.') =~= seq![first, second, third]);
}

/// A credential is `enc:v1:` and the base64 texts of a nonce of 12 bytes, a tag
/// of 16 bytes and the ciphertext: it means what the cipher makes of the
/// ciphertext followed by the tag under the nonce. Nonces and tags of other
/// lengths are refused.
pub proof fn credentials_are_nonce_tag_and_ciphertext(
    nonce: Seq<u8>,
    tag: Seq<u8>,
    body: Seq<u8>,
    key: Seq<u8>,
)
    ensures
        ({
            let text = "enc:v1:"@ + base64url(nonce) + "."@ + base64url(tag) + "."@ + base64url(
                body,
            );
            &&& nonce.len() == 12 && tag.len() == 16 ==> decrypted(text, key) == opened_text_of(
                aes256gcm_open(key, nonce, body + tag),
            )
            &&& nonce.len() != 12 || tag.len() != 16 ==> decrypted(text, key) == Err::<
                Seq<char>,
                Seq<char>,
            >("ZCode 凭据密文参数无效"@)
        }),
{
    lemma_base64_has_no_dot(nonce);
    lemma_base64_has_no_dot(tag);
    lemma_base64_has_no_dot(body);
    lemma_three_parts(base64url(nonce), base64url(tag), base64url(body));
    lemma_base64_reads_back(nonce);
    lemma_base64_reads_back(tag);
    lemma_base64_reads_back(body);
}

/// A text that begins with `enc:v1:` needs three parts behind it with dots
/// between them, each of which is base64: the first that is not decides the
/// error. A text that does not begin so means itself.
pub proof fn malformed_credentials_are_refused(
    text: Seq<char>,
    first: Seq<char>,
    second: Seq<char>,
    third: Seq<char>,
    key: Seq<u8>,
)
    requires
        !first.contains('.'),
        !second.contains('.'),
        !third.contains('.'),
    ensures
        !"enc:v1:"@.is_prefix_of(text) ==> decrypted(text, key) == Ok::<Seq<char>, Seq<char>>(text),
        split_on(text, '.').len() != 3 ==> decrypted("enc:v1:"@ + text, key) == Err::<
            Seq<char>,
            Seq<char>,
        >("ZCode 凭据密文格式无效"@),
        ({
            let whole = "enc:v1:"@ + first + "."@ + second + "."@ + third;
            &&& decoded_component(first) is Err ==> decrypted(whole, key) == Err::<
                Seq<char>,
                Seq<char>,
            >(decoded_component(first)->Err_0)
            &&& decoded_component(first) is Ok && decoded_component(second) is Err ==> decrypted(
                whole,
                key,
            ) == Err::<Seq<char>, Seq<char>>(decoded_component(second)->Err_0)
            &&& decoded_component(first) is Ok && decoded_component(second) is Ok
                && decoded_component(third) is Err ==> decrypted(whole, key) == Err::<
                Seq<char>,
                Seq<char>,
            >(decoded_component(third)->Err_0)
        }),
{
    let prefixed = "enc:v1:"@ + text;
    assert(prefixed.subrange(0, CREDENTIAL_PREFIX@.len() as int) =~= CREDENTIAL_PREFIX@);
    assert(behind_prefix(prefixed) =~= text);
    lemma_three_parts(first, second, third);
}

/// A sealed text is kept as `enc:v1:` and the base64 texts of the nonce, of its
/// last 16 bytes and of the bytes before them, with dots between them.
pub proof fn sealed_texts_are_kept_in_three_parts(nonce: Seq<u8>, body: Seq<u8>, tag: Seq<u8>)
    ensures
        tag.len() == 16 ==> sealed_credential(nonce, body + tag) == Ok::<Seq<char>, Seq<char>>(
            "enc:v1:"@ + base64url(nonce) + "."@ + base64url(tag) + "."@ + base64url(body),
        ),
        tag.len() < 16 ==> sealed_credential(nonce, tag) == Err::<Seq<char>, Seq<char>>(
            "ZCode 凭据加密结果无效"@,
        ),
{
    if tag.len() == 16 {
        let sealed = body + tag;
        assert(sealed.take(sealed.len() - 16) =~= body);
        assert(sealed.skip(sealed.len() - 16) =~= tag);
    }
}

/// Encrypting seals the UTF-8 form of a text under the key and the nonce, unless
/// it is too large for the cipher or for memory.
pub proof fn encrypting_seals_the_text(value: Seq<char>, key: Seq<u8>, nonce: Seq<u8>)
    ensures
        ({
            let plain = encode_utf8(value);
            let fits = plain.len() <= 0x10_0000_0000 && base64_fits(plain.len());
            &&& fits ==> encrypted(value, key, nonce) == sealed_credential(
                nonce,
                aes256gcm_seal(key, nonce, plain),
            )
            &&& !fits ==> encrypted(value, key, nonce) == Err::<Seq<char>, Seq<char>>(
                "加密 ZCode 凭据失败"@,
            )
        }),
{
}

/// A text of the official shape is `enc:v1:` and three parts with dots between
/// them, of 16, of 22 and of as many characters as the base64 text of its length
/// has.
pub proof fn official_shapes_have_three_parts(text: Seq<char>, len: nat)
    requires
        has_official_shape(text, len),
    ensures
        exists|first: Seq<char>, second: Seq<char>, third: Seq<char>|
            {
                &&& text == #[trigger] ("enc:v1:"@ + first + "."@ + second + "."@ + third)
                &&& first.len() == 16
                &&& second.len() == 22
                &&& third.len() == (4 * len + 2) / 3
            },
{
    reveal_strlit(".");
    assert("."@ =~= seq!['.']);
    let rest = behind_prefix(text);
    let parts = split_on(rest, '.');
    joining_undoes_splitting(rest, '.');
    let two = parts.drop_last();
    assert(two.drop_last() =~= seq![parts[0]]);
    assert(joined_with(two.drop_last(), seq!['.']) == parts[0]);
    assert(joined_with(two, seq!['.']) =~= parts[0] + seq!['.'] + parts[1]);
    assert(rest =~= parts[0] + seq!['.'] + parts[1] + seq!['.'] + parts[2]);
    assert(text =~= CREDENTIAL_PREFIX@ + rest) by {
        assert(text.subrange(0, CREDENTIAL_PREFIX@.len() as int) =~= CREDENTIAL_PREFIX@);
    }
    assert(text =~= "enc:v1:"@ + parts[0] + "."@ + parts[1] + "."@ + parts[2]);
}

/// The names, the secret and the key of who runs a process follow from the
/// environment and the home directory.
pub proof fn keys_follow_from_the_environment(
    os: &str,
    user: &Option<String>,
    otherwise: &Option<String>,
    home: &str,
    host: &HostIdentity,
    platform: String,
    name: String,
    secret: String,
    key: [u8; 32],
)
    requires
        call_ensures(platform_name, (os,), platform),
        call_ensures(username, (user, otherwise), name),
        call_ensures(credential_secret_for_home, (home, host), secret),
        call_ensures(credential_key, (home, host), key),
    ensures
        os@ == "macos"@ ==> platform@ == "darwin"@,
        os@ == "windows"@ ==> platform@ == "win32"@,
        os@ != "macos"@ && os@ != "windows"@ ==> platform@ == os@,
        *user is Some ==> name@ == user->0@,
        *user is None && *otherwise is Some ==> name@ == otherwise->0@,
        *user is None && *otherwise is None ==> name@ == "unknown"@,
        host.secret is Some && host.secret->0@.len() > 0 ==> secret@ == host.secret->0@,
        host.secret is None || host.secret->0@.len() == 0 ==> secret@
            == "zcode-credential-fallback:"@ + platform_of(host.os@) + ":"@ + home@ + ":"@
            + user_name_of(host.user.deep_view(), host.username.deep_view()),
        key@ == sha256(encode_utf8(secret@)),
{
    fallbacks_name_platform_home_and_user(os@, user.deep_view(), otherwise.deep_view(), home@);
}

/// The fallback names the platform, the home directory and the user, and gives
/// the key that is its digest.
pub proof fn fallbacks_give_their_key(
    platform: &str,
    home: &str,
    user: &str,
    secret: String,
    key: [u8; 32],
)
    requires
        call_ensures(fallback_credential_secret, (platform, home, user), secret),
        call_ensures(credential_key_from_fallback, (platform, home, user), key),
    ensures
        secret@ == "zcode-credential-fallback:"@ + platform@ + ":"@ + home@ + ":"@ + user@,
        key@ == sha256(encode_utf8(secret@)),
{
}

/// What is encrypted for a home begins with `enc:v1:` and is decrypted for the
/// same home to the text; a text that does not begin so is decrypted to itself.
/// Encrypting fails for texts that are too large alone.
pub proof fn encrypted_texts_are_given_back(
    value: &str,
    home: &str,
    host: &HostIdentity,
    sealed: Result<String, String>,
    text: &str,
    opened: Result<String, String>,
)
    requires
        call_ensures(encrypt_credential, (value, home, host), sealed),
        call_ensures(decrypt_credential, (text, home, host), opened),
    ensures
        sealed is Ok <==> encode_utf8(value@).len() <= 0x10_0000_0000 && base64_fits(
            encode_utf8(value@).len(),
        ),
        sealed is Ok ==> "enc:v1:"@.is_prefix_of(sealed->Ok_0@),
        sealed is Err ==> sealed->Err_0@ == "加密 ZCode 凭据失败"@,
        sealed is Ok && text@ == sealed->Ok_0@ ==> opened is Ok && opened->Ok_0@ == value@,
        !"enc:v1:"@.is_prefix_of(text@) ==> opened is Ok && opened->Ok_0@ == text@,
{
}

/// The same holds under a key and with a nonce that are given, and equal texts
/// are then encrypted to equal texts.
pub proof fn given_nonces_encrypt_alike(
    value: &str,
    key: &[u8; 32],
    nonce: &[u8; 12],
    sealed: Result<String, String>,
    again: Result<String, String>,
    text: &str,
    opened: Result<String, String>,
)
    requires
        call_ensures(encrypt_credential_with_nonce, (value, key, nonce), sealed),
        call_ensures(encrypt_credential_with_nonce, (value, key, nonce), again),
        call_ensures(decrypt_credential_with_key, (text, key), opened),
    ensures
        outcome(sealed) == outcome(again),
        sealed is Ok <==> encode_utf8(value@).len() <= 0x10_0000_0000 && base64_fits(
            encode_utf8(value@).len(),
        ),
        sealed is Ok ==> "enc:v1:"@.is_prefix_of(sealed->Ok_0@),
        sealed is Ok && text@ == sealed->Ok_0@ ==> opened is Ok && opened->Ok_0@ == value@,
        !"enc:v1:"@.is_prefix_of(text@) ==> opened is Ok && opened->Ok_0@ == text@,
{
}

/// The parts of a credential are base64, what the cipher opened is UTF-8, and
/// what it sealed is kept in three parts; anything else is refused.
pub proof fn credentials_are_taken_apart_and_put_together(
    data: Seq<u8>,
    value: &str,
    decoded: Result<Vec<u8>, String>,
    text: Seq<char>,
    plain: Vec<u8>,
    opened: Result<String, String>,
    unopened: Result<String, String>,
    nonce: &[u8; 12],
    sealed: Vec<u8>,
    kept: Result<String, String>,
)
    requires
        value@ == base64url(data),
        call_ensures(decode_component, (value,), decoded),
        plain@ == encode_utf8(text),
        call_ensures(opened_text, (Some(plain),), opened),
        call_ensures(opened_text, (None,), unopened),
        call_ensures(sealed_credential_text, (nonce, sealed), kept),
    ensures
        decoded is Ok && decoded->Ok_0@ == data,
        opened is Ok && opened->Ok_0@ == text,
        unopened is Err && unopened->Err_0@
            == "ZCode 凭据解密失败，当前用户或 HOME 与写入环境不一致"@,
        sealed@.len() < 16 ==> kept is Err && kept->Err_0@ == "ZCode 凭据加密结果无效"@,
        sealed@.len() >= 16 ==> kept is Ok && kept->Ok_0@ == "enc:v1:"@ + base64url(nonce@) + "."@
            + base64url(sealed@.skip(sealed@.len() - 16)) + "."@ + base64url(
            sealed@.take(sealed@.len() - 16),
        ),
{
    parts_are_read_as_base64(data, text);
    opened_bytes_are_text(data, text);
}

/// What is encrypted for a home is sealed with a nonce that was drawn by chance.
pub proof fn texts_are_sealed_with_drawn_nonces(
    value: &str,
    home: &str,
    host: &HostIdentity,
    res: Result<String, String>,
)
    requires
        call_ensures(encrypt_credential, (value, home, host), res),
    ensures
        exists|nonce: [u8; 12]|
            is_drawn_nonce(nonce@) && outcome(res) == #[trigger] encrypted(
                value@,
                key_for_home(home@, host@),
                nonce@,
            ),
{
}

}
