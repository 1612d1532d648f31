//! Login tokens, as the companion API server mints them.
//!
//! The two servers share a symmetric secret. A token is an HS256 JWT that carries a user id and
//! the time at which it expires.
use serde_json::value::RawValue;
use std::collections::HashMap;
use vstd::prelude::*;
use vstd::utf8::{decode_utf8, valid_utf8};

use crate::message::texts;
use crate::text::{chars_of, pieces, split_on};

verus! {

/// What a token says.
#[derive(Clone, Copy, Debug, PartialEq, Eq, Structural)]
pub struct Claims {
    pub user_id: u32,
    /// When the token expires, in seconds since 1970.
    pub exp: usize,
}

/// How long after its expiry a token still counts as a well-formed one: seconds.
pub const LEEWAY: u64 = 60;

/// The token is well formed, and signed with `secret`.
pub uninterp spec fn token_signed(token: Seq<char>, secret: Seq<char>) -> bool;

/// The bytes that a text stands for in base64, in the alphabet for URLs and without padding.
pub uninterp spec fn decoded_url64(text: Seq<char>) -> Option<Seq<u8>>;

/// Some bytes as text, with a replacement for what is none.
pub uninterp spec fn lossy_text(bytes: Seq<u8>) -> Seq<char>;

/// The member `name` of the JSON object that a text stands for: its number where it is an unsigned
/// one, and `None` where there is no such object or no such member.
pub uninterp spec fn json_member(text: Seq<char>, name: Seq<char>) -> Option<Option<u64>>;

/// The token that says this, signed with `secret`.
pub uninterp spec fn minted_token(user_id: u32, exp: u64, secret: Seq<char>) -> Seq<char>;

/// `jsonwebtoken::decode` for HS256, with the token's expiry left to the caller: whether it takes a
/// token depends on the token and the secret alone. It refuses one that is not three parts, not
/// base64, not JSON, of another algorithm, with another signature, or without an `exp` or with more
/// than one. Of the claims it is only asked that they are JSON.
#[verifier::external_body]
fn check_hs256(token: &str, secret: &str) -> (r: bool)
    ensures
        r == token_signed(token@, secret@),
{
    let mut rules = jsonwebtoken::Validation::new(jsonwebtoken::Algorithm::HS256);
    rules.validate_exp = false;
    let key = jsonwebtoken::DecodingKey::from_secret(secret.as_bytes());
    jsonwebtoken::decode::<serde::de::IgnoredAny>(token, &key, &rules).is_ok()
}

/// `base64::decode_config` in the alphabet for URLs, without padding; a function of the text alone.
#[verifier::external_body]
fn decode_url64(text: &str) -> (r: Option<Vec<u8>>)
    ensures
        match r {
            Some(b) => decoded_url64(text@) == Some(b@),
            None => decoded_url64(text@) is None,
        },
{
    base64::decode_config(text, base64::URL_SAFE_NO_PAD).ok()
}

/// The standard library's `String::from_utf8_lossy`: the text that the bytes stand for in UTF-8,
/// where they do. How other bytes are replaced is not said.
#[verifier::external_body]
fn text_of(bytes: &Vec<u8>) -> (r: String)
    ensures
        r@ == lossy_text(bytes@),
        valid_utf8(bytes@) ==> r@ == decode_utf8(bytes@),
{
    String::from_utf8_lossy(bytes).into_owned()
}

/// `serde_json::from_str`, of an object and of one of its members; a function of the text and the
/// name alone. Of a member that is repeated, the last one counts.
#[verifier::external_body]
fn find_member(text: &str, name: &str) -> (r: Option<Option<u64>>)
    ensures
        r == json_member(text@, name@),
{
    match serde_json::from_str::<HashMap<String, Box<RawValue>>>(text) {
        Ok(members) => members.get(name).map(|v| serde_json::from_str(v.get()).ok()),
        Err(_) => None,
    }
}

/// The JSON object has the member `name` more than once: it can be cut in two, at a comma between
/// two members, so that both halves have it.
pub open spec fn member_repeated(text: Seq<char>, name: Seq<char>) -> bool {
    exists|i: int| #[trigger] repeated_at(text, name, i)
}

/// The text can be cut in two objects at place `i`, and both have the member `name`. A comma inside
/// a value is no such place: what is before it, closed with one brace, is no object.
pub open spec fn repeated_at(text: Seq<char>, name: Seq<char>, i: int) -> bool {
    &&& 0 <= i < text.len()
    &&& text[i] == ','
    &&& json_member(text.take(i) + "}"@, name) is Some
    &&& json_member("{"@ + text.skip(i + 1), name) is Some
}

/// The number in the one member `name` of a JSON object.
pub open spec fn json_number(text: Seq<char>, name: Seq<char>) -> Option<u64> {
    if member_repeated(text, name) {
        None
    } else {
        match json_member(text, name) {
            Some(n) => n,
            None => None,
        }
    }
}

fn is_repeated(text: &str, name: &str) -> (r: bool)
    ensures
        r == member_repeated(text@, name@),
{
    let cs = chars_of(text);
    let n: usize = cs.len();
    let mut i: usize = 0;
    while i < n
        invariant
            i <= n,
            n == cs@.len(),
            cs@ == text@,
            forall|j: int| 0 <= j < i ==> !#[trigger] repeated_at(text@, name@, j),
        decreases n - i,
    {
        if cs[i] == ',' {
            let mut head = text.substring_char(0, i).to_owned();
            head.append("}");
            let mut tail = "{".to_owned();
            tail.append(text.substring_char(i + 1, n));
            proof {
                assert(text@.subrange(0, i as int) =~= text@.take(i as int));
                assert(text@.subrange(i + 1, n as int) =~= text@.skip(i + 1));
            }
            if find_member(head.as_str(), name).is_some() && find_member(
                tail.as_str(),
                name,
            ).is_some() {
                assert(repeated_at(text@, name@, i as int));
                return true;
            }
        }
        i += 1;
    }
    false
}

fn number_in(text: &str, name: &str) -> (r: Option<u64>)
    ensures
        r == json_number(text@, name@),
{
    if is_repeated(text, name) {
        return None;
    }
    match find_member(text, name) {
        Some(n) => n,
        None => None,
    }
}

/// The middle one of a token's three parts, as text.
pub open spec fn payload_text(token: Seq<char>) -> Option<Seq<char>> {
    let parts = pieces(token, '.');
    if parts.len() == 3 {
        match decoded_url64(parts[1]) {
            Some(bytes) => Some(lossy_text(bytes)),
            None => None,
        }
    } else {
        None
    }
}

/// The numbers `user_id` and `exp` in a token that is well formed and signed with `secret`, each
/// where the claim is there, once, and is an unsigned integer.
pub open spec fn signed_claims(token: Seq<char>, secret: Seq<char>) -> Option<
    (Option<u64>, Option<u64>),
> {
    match payload_text(token) {
        Some(text) if token_signed(token, secret) => Some(
            (json_number(text, "user_id"@), json_number(text, "exp"@)),
        ),
        _ => None,
    }
}

/// What a token carries.
pub fn decode_claims(token: &str, secret: &str) -> (r: Option<(Option<u64>, Option<u64>)>)
    ensures
        r == signed_claims(token@, secret@),
{
    if !check_hs256(token, secret) {
        return None;
    }
    let parts = split_on(token, '.');
    if parts.len() != 3 {
        return None;
    }
    assert(parts@[1]@ == texts(parts@)[1]);
    match decode_url64(parts[1].as_str()) {
        Some(bytes) => {
            let text = text_of(&bytes);
            Some((number_in(text.as_str(), "user_id"), number_in(text.as_str(), "exp")))
        },
        None => None,
    }
}

/// `jsonwebtoken::encode` for HS256. With a symmetric key and claims that are numbers it has no
/// way to fail. It writes three parts with a dot between each two, and what it writes is what
/// `decode` takes under the same secret, with these claims, each of them once.
#[verifier::external_body]
fn encode_hs256(user_id: u32, exp: u64, secret: &str) -> (r: Result<String, String>)
    ensures
        r is Ok,
        r->Ok_0@ == minted_token(user_id, exp, secret@),
        r->Ok_0@.len() > 0,
        pieces(r->Ok_0@, '.').len() == 3,
        signed_claims(r->Ok_0@, secret@) == Some((Some(user_id as u64), Some(exp))),
{
    let mut claims = serde_json::Map::new();
    claims.insert("user_id".to_owned(), serde_json::Value::from(user_id));
    claims.insert("exp".to_owned(), serde_json::Value::from(exp));
    let key = jsonwebtoken::EncodingKey::from_secret(secret.as_bytes());
    jsonwebtoken::encode(&jsonwebtoken::Header::default(), &serde_json::Value::Object(claims), &key)
        .map_err(|e| e.to_string())
}

/// The earliest and the latest moment that a token can be given for its expiry: seconds since
/// 1970, some 262000 years either way.
pub const EARLIEST_EXPIRY: i64 = -8_334_601_228_800;

pub const LATEST_EXPIRY: i64 = 8_210_266_876_799;

/// A moment as the unsigned number that a token holds; one before 1970 wraps round.
pub open spec fn spec_stamp(t: int) -> usize {
    (t % (usize::MAX + 1)) as usize
}

fn stamp(t: i64) -> (r: usize)
    ensures
        r == spec_stamp(t as int),
{
    let m: i128 = usize::MAX as i128 + 1;
    if t >= 0 {
        (t as i128 % m) as usize
    } else {
        let up: i128 = t as i128 + 0x1_0000_0000_0000_0000;
        proof {
            vstd::arithmetic::div_mod::lemma_mod_multiples_vanish(
                0x1_0000_0000_0000_0000int / (m as int),
                t as int,
                m as int,
            );
        }
        (up % m) as usize
    }
}

/// The token carries these claims, under this secret.
pub open spec fn carries(token: Seq<char>, secret: Seq<char>, claims: Claims) -> bool {
    signed_claims(token, secret) == Some((Some(claims.user_id as u64), Some(claims.exp as u64)))
}

/// The token was minted for `user_id`, under `secret`, to expire `exp` seconds after `now`.
pub open spec fn is_minted(
    token: Seq<char>,
    user_id: u32,
    exp: int,
    now: int,
    secret: Seq<char>,
) -> bool {
    &&& token == minted_token(user_id, spec_stamp(now + exp) as u64, secret)
    &&& carries(token, secret, Claims { user_id, exp: spec_stamp(now + exp) })
    &&& token.len() > 0
    &&& pieces(token, '.').len() == 3
}

/// Mints a token for `user_id` that expires `exp` seconds after `now`. It is not empty, and has three
/// parts with a dot between each two.
pub fn generate_token(user_id: u32, exp: i64, now: i64, secret: &str) -> (r: Result<
    String,
    String,
>)
    requires
        EARLIEST_EXPIRY <= now + exp <= LATEST_EXPIRY,
    ensures
        r matches Ok(t) && is_minted(t@, user_id, exp as int, now as int, secret@),
{
    encode_hs256(user_id, stamp(now + exp) as u64, secret)
}

/// What becomes of a token.
pub enum TokenVerdict {
    Accepted(Claims),
    /// Signed and well formed, but no longer valid.
    Expired,
    Invalid,
}

/// The verdict on a token that carries `decoded`, at the time `now`: it needs both claims, within
/// their ranges, and an expiry in the future.
pub open spec fn token_verdict(
    decoded: Option<(Option<u64>, Option<u64>)>,
    now: u64,
) -> TokenVerdict {
    match decoded {
        Some((Some(user_id), Some(exp))) => {
            if user_id > u32::MAX || exp > usize::MAX || exp < now - LEEWAY {
                TokenVerdict::Invalid
            } else if exp > now {
                TokenVerdict::Accepted(Claims { user_id: user_id as u32, exp: exp as usize })
            } else {
                TokenVerdict::Expired
            }
        },
        _ => TokenVerdict::Invalid,
    }
}

/// The text of a refusal.
pub open spec fn refusal_text(v: TokenVerdict) -> Seq<char> {
    match v {
        TokenVerdict::Expired => "Token status invalid or expired"@,
        _ => "Invalid token"@,
    }
}

/// The result says what the verdict is.
pub open spec fn says_verdict(r: Result<Claims, String>, v: TokenVerdict) -> bool {
    match (r, v) {
        (Ok(c), TokenVerdict::Accepted(d)) => c == d,
        (Err(_), TokenVerdict::Accepted(_)) => false,
        (Ok(_), _) => false,
        (Err(e), _) => e@ == refusal_text(v),
    }
}

/// Judges what a token carries.
pub fn judge_claims(decoded: Option<(Option<u64>, Option<u64>)>, now: u64) -> (r: Result<
    Claims,
    String,
>)
    requires
        now >= LEEWAY,
    ensures
        says_verdict(r, token_verdict(decoded, now)),
{
    match decoded {
        Some((Some(user_id), Some(exp))) => {
            if user_id > u32::MAX as u64 || exp > usize::MAX as u64 || exp < now - LEEWAY {
                Err("Invalid token".to_owned())
            } else if exp > now {
                Ok(Claims { user_id: user_id as u32, exp: exp as usize })
            } else {
                Err("Token status invalid or expired".to_owned())
            }
        },
        _ => Err("Invalid token".to_owned()),
    }
}

/// Verifies an HS256 token against `secret`, at `now` seconds since 1970. A token that expired
/// within the leeway is refused like any other, with its own text.
pub fn verify_token(token: &str, secret: &str, now: u64) -> (r: Result<Claims, String>)
    requires
        now >= LEEWAY,
    ensures
        says_verdict(r, token_verdict(signed_claims(token@, secret@), now)),
{
    judge_claims(decode_claims(token, secret), now)
}

/// A token is accepted while it has not expired, with the claims that it was minted for, and
/// never afterwards.
pub proof fn law_minted_token_is_accepted_until_it_expires(
    token: Seq<char>,
    secret: Seq<char>,
    claims: Claims,
    now: u64,
)
    requires
        carries(token, secret, claims),
    ensures
        token_verdict(signed_claims(token, secret), now) == TokenVerdict::Accepted(claims)
            <==> claims.exp > now,
        claims.exp <= now ==> token_verdict(signed_claims(token, secret), now)
            !is Accepted,
{
}

/// Only what was signed with the secret is accepted: a token that carries nothing under it, such
/// as one signed with another secret or one that is no token at all, is invalid.
pub proof fn law_unsigned_token_is_invalid(token: Seq<char>, secret: Seq<char>, now: u64)
    requires
        signed_claims(token, secret) is None,
    ensures
        token_verdict(signed_claims(token, secret), now) is Invalid,
{
}

/// Once a token is refused it stays refused, and no verdict but the text of it changes after that.
pub proof fn law_refused_token_stays_refused(
    decoded: Option<(Option<u64>, Option<u64>)>,
    now: u64,
    later: u64,
)
    requires
        now <= later,
        token_verdict(decoded, now) !is Accepted,
    ensures
        token_verdict(decoded, later) !is Accepted,
{
}

/// A token is accepted where it carries a user id and an expiry of their sizes, and the expiry is yet
/// to come; then with these claims. One that expired no more than a minute ago is told that; any
/// other is invalid.
pub proof fn law_what_a_token_is_worth(user_id: u64, exp: u64, now: u64)
    ensures
        ({
            let v = token_verdict(Some((Some(user_id), Some(exp))), now);
            let sized = user_id <= 0xffff_ffff && exp <= usize::MAX;
            &&& sized && exp > now ==> v == TokenVerdict::Accepted(
                Claims { user_id: user_id as u32, exp: exp as usize },
            )
            &&& sized && now - 60 <= exp <= now ==> v is Expired
            &&& !sized || exp < now - 60 ==> v is Invalid
        }),
        token_verdict(None, now) is Invalid,
        token_verdict(Some((None, Some(exp))), now) is Invalid,
        token_verdict(Some((Some(user_id), None)), now) is Invalid,
        token_verdict(Some((None, None)), now) is Invalid,
{
}

/// What a refused token is told: an expired one that it is, any other that it is invalid. An accepted
/// one gets its claims, and no text.
pub proof fn law_refused_token_is_told_why(r: Result<Claims, String>, v: TokenVerdict)
    requires
        says_verdict(r, v),
    ensures
        v matches TokenVerdict::Accepted(c) ==> r == Ok::<Claims, String>(c),
        v is Expired ==> (r matches Err(e) && e@ == "Token status invalid or expired"@),
        v is Invalid ==> (r matches Err(e) && e@ == "Invalid token"@),
{
}

/// What a token carries stands in its middle part, and counts only under the right signature: the
/// user id in the member `user_id`, the expiry in the member `exp`.
pub proof fn law_claims_stand_in_the_middle_part(token: Seq<char>, secret: Seq<char>)
    ensures
        signed_claims(token, secret) is Some <==> token_signed(token, secret) && pieces(
            token,
            '.',
        ).len() == 3 && decoded_url64(pieces(token, '.')[1]) is Some,
        signed_claims(token, secret) matches Some((user_id, exp)) ==> ({
            let text = lossy_text(decoded_url64(pieces(token, '.')[1])->0);
            &&& user_id == json_number(text, "user_id"@)
            &&& exp == json_number(text, "exp"@)
        }),
{
}

/// A claim counts where it is there once, as an unsigned number. It is there twice where the text can
/// be cut at a comma so that both sides, each closed to an object, have it.
pub proof fn law_claim_counts_where_it_is_there_once(
    text: Seq<char>,
    name: Seq<char>,
    head: Seq<char>,
    tail: Seq<char>,
)
    ensures
        json_number(text, name) matches Some(n) ==> json_member(text, name) == Some(Some(n)),
        text == head + seq![','] + tail && json_member(head + seq!['}'], name) is Some && json_member(
            seq!['{'] + tail,
            name,
        ) is Some ==> json_number(text, name) is None,
        (forall|i: int|
            0 <= i < text.len() && text[i] == ',' ==> json_member(
                #[trigger] text.take(i) + seq!['}'],
                name,
            ) is None || json_member(seq!['{'] + text.skip(i + 1), name) is None) ==> json_number(
            text,
            name,
        ) == match json_member(text, name) {
            Some(n) => n,
            None => None,
        },
{
    reveal_strlit("}");
    reveal_strlit("{");
    assert("}"@ =~= seq!['}']);
    assert("{"@ =~= seq!['{']);
    if text == head + seq![','] + tail {
        let i = head.len() as int;
        assert(text.take(i) =~= head);
        assert(text.skip(i + 1) =~= tail);
        assert(text[i] == ',');
        if json_member(head + seq!['}'], name) is Some && json_member(seq!['{'] + tail, name) is Some {
            assert(repeated_at(text, name, i));
        }
    }
    if member_repeated(text, name) {
        let i = choose|i: int| #[trigger] repeated_at(text, name, i);
        assert(json_member(text.take(i) + seq!['}'], name) is Some);
    }
}

/// The expiry that is put into a token is the moment itself, from 1970 on as far as the number goes;
/// earlier ones come out behind all others.
pub proof fn law_expiry_is_the_moment_itself(t: int)
    ensures
        0 <= t <= usize::MAX ==> spec_stamp(t) == t,
        -usize::MAX <= t < 0 ==> spec_stamp(t) == t + usize::MAX + 1,
{
    if 0 <= t <= usize::MAX {
        vstd::arithmetic::div_mod::lemma_small_mod(t as nat, (usize::MAX + 1) as nat);
    }
    if -usize::MAX <= t < 0 {
        vstd::arithmetic::div_mod::lemma_mod_multiples_vanish(1, t, usize::MAX + 1);
        vstd::arithmetic::div_mod::lemma_small_mod(
            (t + usize::MAX + 1) as nat,
            (usize::MAX + 1) as nat,
        );
    }
}

/// A token lasts as long as it was minted for: under the same secret it is accepted, for the user
/// that it was minted for, at any time before that has gone by, and at no time afterwards. It has
/// three parts.
pub proof fn law_minted_token_lasts_as_long_as_asked(
    token: Seq<char>,
    user_id: u32,
    exp: int,
    now: int,
    secret: Seq<char>,
    at: u64,
)
    requires
        is_minted(token, user_id, exp, now, secret),
        0 <= now + exp <= usize::MAX,
    ensures
        at < now + exp ==> (token_verdict(signed_claims(token, secret), at)
            matches TokenVerdict::Accepted(c) && c.user_id == user_id && c.exp == now + exp),
        at >= now + exp ==> token_verdict(signed_claims(token, secret), at) !is Accepted,
        token.len() > 0,
        pieces(token, '.').len() == 3,
{
    law_expiry_is_the_moment_itself(now + exp);
}

} // verus!
