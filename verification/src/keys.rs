//! The server's key: where it comes from, and what it signs.
use vstd::prelude::*;

use crate::text::same_text;

verus! {

/// Bytes of a secret key. The second half of them is the public key.
pub const SECRETKEYBYTES: usize = 64;

/// Bytes of a signature.
pub const SIGNATUREBYTES: usize = 64;

/// The bytes that a text stands for in base64, where it is base64.
pub uninterp spec fn decoded_base64(text: Seq<char>) -> Option<Seq<u8>>;

/// Some bytes in base64.
pub uninterp spec fn encoded_base64(bytes: Seq<u8>) -> Seq<char>;

/// A message under the signature of a secret key.
pub uninterp spec fn signed_message(message: Seq<u8>, sk: Seq<u8>) -> Seq<u8>;

/// `base64::decode`, the standard alphabet with padding; a function of the text alone.
#[verifier::external_body]
fn base64_decode(text: &str) -> (r: Option<Vec<u8>>)
    ensures
        match r {
            Some(b) => decoded_base64(text@) == Some(b@),
            None => decoded_base64(text@) is None,
        },
{
    base64::decode(text).ok()
}

/// `base64::encode`, the standard alphabet with padding: a function of the bytes alone, and what
/// `decode` reads back.
#[verifier::external_body]
fn base64_encode(bytes: &Vec<u8>) -> (r: String)
    requires
        bytes@.len() < 0x4000_0000,
    ensures
        r@ == encoded_base64(bytes@),
        decoded_base64(r@) == Some(bytes@),
{
    base64::encode(bytes)
}

/// `sodiumoxide::crypto::sign::sign`: the signature, which depends on the message and the key
/// alone, and after it the message.
#[verifier::external_body]
fn ed25519_sign(message: &Vec<u8>, sk: &Vec<u8>) -> (r: Vec<u8>)
    requires
        sk@.len() == SECRETKEYBYTES,
    ensures
        r@ == signed_message(message@, sk@),
        r@.len() == SIGNATUREBYTES + message@.len(),
        r@.skip(SIGNATUREBYTES as int) == message@,
{
    let sk = sodiumoxide::crypto::sign::SecretKey::from_slice(sk).unwrap();
    sodiumoxide::crypto::sign::sign(message, &sk)
}

/// Where the server's key comes from.
#[derive(Debug)]
pub enum ServerKey {
    /// It was given: the text that clients have to present, and the secret key if it was one.
    Given { key: String, sk: Option<Vec<u8>> },
    /// It is the server's own, to be read or made. `shown` says that clients have to present its
    /// public key.
    Own { shown: bool },
}

#[verifier::ext_equal]
pub enum ServerKeyView {
    Given { key: Seq<char>, sk: Option<Seq<u8>> },
    Own { shown: bool },
}

/// The bytes of an optional byte string.
pub open spec fn opt_bytes(b: Option<Vec<u8>>) -> Option<Seq<u8>> {
    match b {
        Some(v) => Some(v@),
        None => None,
    }
}

impl View for ServerKey {
    type V = ServerKeyView;

    open spec fn view(&self) -> ServerKeyView {
        match self {
            ServerKey::Given { key, sk } => ServerKeyView::Given { key: key@, sk: opt_bytes(*sk) },
            ServerKey::Own { shown } => ServerKeyView::Own { shown: *shown },
        }
    }
}

/// What the option `key` asks for, where `decoded` is what it stands for in base64: a secret key,
/// whose public half clients have to present; or, empty or one of two signs, the server's own key;
/// or else a text that clients have to present as it is.
pub open spec fn spec_server_key(key: Seq<char>, decoded: Option<Seq<u8>>) -> ServerKeyView {
    match decoded {
        Some(sk) if sk.len() == SECRETKEYBYTES => ServerKeyView::Given {
            key: encoded_base64(sk.skip(SECRETKEYBYTES as int / 2)),
            sk: Some(sk),
        },
        _ => if key.len() == 0 || key == "-"@ || key == "_"@ {
            ServerKeyView::Own { shown: key.len() > 0 }
        } else {
            ServerKeyView::Given { key, sk: None }
        },
    }
}

/// Tells what the option `key` asks for from what it stands for in base64.
pub fn server_key_of(key: &str, decoded: Option<Vec<u8>>) -> (r: ServerKey)
    ensures
        r@ == spec_server_key(key@, opt_bytes(decoded)),
        r matches ServerKey::Given { key: shown, sk: Some(sk) } ==> decoded_base64(shown@) == Some(
            sk@.skip(SECRETKEYBYTES as int / 2),
        ),
{
    if let Some(sk) = decoded {
        if sk.len() == SECRETKEYBYTES {
            let mut public: Vec<u8> = Vec::new();
            let mut i: usize = SECRETKEYBYTES / 2;
            while i < SECRETKEYBYTES
                invariant
                    SECRETKEYBYTES / 2 <= i <= SECRETKEYBYTES,
                    sk@.len() == SECRETKEYBYTES,
                    public@ == sk@.subrange(SECRETKEYBYTES as int / 2, i as int),
                decreases SECRETKEYBYTES - i,
            {
                public.push(sk[i]);
                i += 1;
                assert(public@ =~= sk@.subrange(SECRETKEYBYTES as int / 2, i as int));
            }
            assert(public@ =~= sk@.skip(SECRETKEYBYTES as int / 2));
            return ServerKey::Given { key: base64_encode(&public), sk: Some(sk) };
        }
    }
    if key.is_empty() || same_text(key, "-") || same_text(key, "_") {
        ServerKey::Own { shown: !key.is_empty() }
    } else {
        ServerKey::Given { key: key.to_owned(), sk: None }
    }
}

/// Tells what the option `key` asks for. What clients have to present, where a secret key was
/// given, stands for its public half.
pub fn get_server_sk(key: &str) -> (r: ServerKey)
    ensures
        r@ == spec_server_key(key@, decoded_base64(key@)),
        r matches ServerKey::Given { key: shown, sk: Some(sk) } ==> decoded_base64(shown@) == Some(
            sk@.skip(SECRETKEYBYTES as int / 2),
        ),
{
    server_key_of(key, base64_decode(key))
}

/// What clients have to present where the server's own key is used: its public half, where it is
/// shown, and nothing otherwise.
pub open spec fn presented_key(shown: bool, pk: Seq<char>) -> Seq<char> {
    if shown {
        pk
    } else {
        Seq::empty()
    }
}

/// The text that clients have to present, and the secret key, once the server's own pair is there.
pub fn own_key(shown: bool, pk: String, sk: Option<Vec<u8>>) -> (r: (String, Option<Vec<u8>>))
    ensures
        r.0@ == presented_key(shown, pk@),
        r.1 == sk,
{
    if shown {
        (pk, sk)
    } else {
        let none = String::new();
        assert(none@ =~= Seq::<char>::empty());
        (none, sk)
    }
}

/// Signs a message.
pub fn sign(message: &Vec<u8>, sk: &Vec<u8>) -> (r: Vec<u8>)
    requires
        sk@.len() == SECRETKEYBYTES,
    ensures
        r@ == signed_message(message@, sk@),
        r@.len() == SIGNATUREBYTES + message@.len(),
        r@.skip(SIGNATUREBYTES as int) == message@,
{
    ed25519_sign(message, sk)
}

/// An option that is a secret key of sixty-four bytes in base64 is taken as that: clients have to
/// present its second half, in base64. Of any other option, an empty one means the server's own key
/// without asking clients for it, one of the two signs means that key with asking, and everything
/// else is what clients have to present, as it is, and there is nothing to sign with.
pub proof fn law_key_option(key: Seq<char>, decoded: Option<Seq<u8>>)
    ensures
        ({
            let k = spec_server_key(key, decoded);
            let secret = decoded is Some && decoded->0.len() == 64;
            &&& secret ==> k == (ServerKeyView::Given {
                key: encoded_base64(decoded->0.subrange(32, 64)),
                sk: decoded,
            })
            &&& !secret && key.len() == 0 ==> k == (ServerKeyView::Own { shown: false })
            &&& !secret && (key == seq!['-'] || key == seq!['_']) ==> k == (ServerKeyView::Own {
                shown: true,
            })
            &&& !secret && key.len() > 0 && key != seq!['-'] && key != seq!['_'] ==> k == (
            ServerKeyView::Given { key, sk: None })
        }),
{
    reveal_strlit("-");
    reveal_strlit("_");
    assert("-"@ =~= seq!['-']);
    assert("_"@ =~= seq!['_']);
    if decoded is Some && decoded->0.len() == 64 {
        assert(decoded->0.skip(32) =~= decoded->0.subrange(32, 64));
    }
}

} // verus!
