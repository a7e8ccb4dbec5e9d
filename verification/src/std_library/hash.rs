//! The `std:hash` module: digests of text, computed by the `crypto` crate.

use vstd::prelude::*;
use vstd::utf8::encode_utf8;
use crypto::digest::Digest;
use crypto::md5::Md5;
use crypto::sha1::Sha1;
use crypto::sha2::{Sha256, Sha512};
use crypto::sha3::Sha3;
use crypto::whirlpool::Whirlpool;
use crate::evaluation::object::{objects_model, value_text, Builtin, Object, Value};
use crate::std_library::{arity_error, arity_text, Res};
use crate::text::{push_text, same_text};

verus! {

/// The MD5 digest of the UTF-8 bytes of a text, as `crypto::md5::Md5` writes
/// it in hexadecimal.
pub uninterp spec fn md5_hex(text: Seq<char>) -> Seq<char>;

/// The SHA-1 digest of the UTF-8 bytes of a text, as `crypto::sha1::Sha1`
/// writes it in hexadecimal.
pub uninterp spec fn sha1_hex(text: Seq<char>) -> Seq<char>;

/// The SHA-256 digest of the UTF-8 bytes of a text, as
/// `crypto::sha2::Sha256` writes it in hexadecimal.
pub uninterp spec fn sha256_hex(text: Seq<char>) -> Seq<char>;

/// The SHA-512 digest of the UTF-8 bytes of a text, as
/// `crypto::sha2::Sha512` writes it in hexadecimal.
pub uninterp spec fn sha512_hex(text: Seq<char>) -> Seq<char>;

/// The SHA3-256 digest of the UTF-8 bytes of a text, as `crypto::sha3::Sha3`
/// writes it in hexadecimal.
pub uninterp spec fn sha3_256_hex(text: Seq<char>) -> Seq<char>;

/// The SHA3-512 digest of the UTF-8 bytes of a text, as `crypto::sha3::Sha3`
/// writes it in hexadecimal.
pub uninterp spec fn sha3_512_hex(text: Seq<char>) -> Seq<char>;

/// The Whirlpool digest of the UTF-8 bytes of a text, as
/// `crypto::whirlpool::Whirlpool` writes it in hexadecimal.
pub uninterp spec fn whirlpool_hex(text: Seq<char>) -> Seq<char>;

/// The number of bytes from which on the digests count their input no
/// longer: 2 to the power of 61.
pub const DIGEST_LIMIT: u64 = 0x2000_0000_0000_0000;

/// Whether a text is short enough for the digests.
pub open spec fn digestible(text: Seq<char>) -> bool {
    encode_utf8(text).len() < DIGEST_LIMIT
}

/// `Md5::new`, `Digest::input_str` and `Digest::result_str` of the `crypto`
/// crate: the digest in hexadecimal, a function of the text alone. The
/// input is kept as short as for the digests that cannot count longer input.
#[verifier::external_body]
fn md5(text: &str) -> (digest: String)
    requires
        digestible(text@),
    ensures
        digest@ == md5_hex(text@),
{
    let mut hasher = Md5::new();
    hasher.input_str(text);
    hasher.result_str()
}

/// `Sha1::new`, `Digest::input_str` and `Digest::result_str` of the `crypto`
/// crate: the digest in hexadecimal, a function of the text alone.
/// `input_str` panics from 2^61 bytes on, so longer input is left out.
#[verifier::external_body]
fn sha1(text: &str) -> (digest: String)
    requires
        digestible(text@),
    ensures
        digest@ == sha1_hex(text@),
{
    let mut hasher = Sha1::new();
    hasher.input_str(text);
    hasher.result_str()
}

/// `Sha256::new`, `Digest::input_str` and `Digest::result_str` of the
/// `crypto` crate: the digest in hexadecimal, a function of the text alone.
/// `input_str` panics from 2^61 bytes on, so longer input is left out.
#[verifier::external_body]
fn sha256(text: &str) -> (digest: String)
    requires
        digestible(text@),
    ensures
        digest@ == sha256_hex(text@),
{
    let mut hasher = Sha256::new();
    hasher.input_str(text);
    hasher.result_str()
}

/// `Sha512::new`, `Digest::input_str` and `Digest::result_str` of the
/// `crypto` crate: the digest in hexadecimal, a function of the text alone.
/// The input is kept as short as for the digests that cannot count longer
/// input.
#[verifier::external_body]
fn sha512(text: &str) -> (digest: String)
    requires
        digestible(text@),
    ensures
        digest@ == sha512_hex(text@),
{
    let mut hasher = Sha512::new();
    hasher.input_str(text);
    hasher.result_str()
}

/// `Sha3::sha3_256`, `Digest::input_str` and `Digest::result_str` of the
/// `crypto` crate: the digest in hexadecimal, a function of the text alone.
/// The input is kept as short as for the digests that cannot count longer
/// input.
#[verifier::external_body]
fn sha3_256(text: &str) -> (digest: String)
    requires
        digestible(text@),
    ensures
        digest@ == sha3_256_hex(text@),
{
    let mut hasher = Sha3::sha3_256();
    hasher.input_str(text);
    hasher.result_str()
}

/// `Sha3::sha3_512`, `Digest::input_str` and `Digest::result_str` of the
/// `crypto` crate: the digest in hexadecimal, a function of the text alone.
/// The input is kept as short as for the digests that cannot count longer
/// input.
#[verifier::external_body]
fn sha3_512(text: &str) -> (digest: String)
    requires
        digestible(text@),
    ensures
        digest@ == sha3_512_hex(text@),
{
    let mut hasher = Sha3::sha3_512();
    hasher.input_str(text);
    hasher.result_str()
}

/// `Whirlpool::new`, `Digest::input_str` and `Digest::result_str` of the
/// `crypto` crate: the digest in hexadecimal, a function of the text alone.
/// The input is kept as short as for the digests that cannot count longer
/// input.
#[verifier::external_body]
fn whirlpool(text: &str) -> (digest: String)
    requires
        digestible(text@),
    ensures
        digest@ == whirlpool_hex(text@),
{
    let mut hasher = Whirlpool::new();
    hasher.input_str(text);
    hasher.result_str()
}

/// What `hasher` answers where its first argument is no string.
pub open spec fn not_string_text(v: Value) -> Seq<char> {
    "First argument must be a string. Got "@ + value_text(v)
}

/// What `hasher` answers for an algorithm that it does not know.
pub open spec fn unknown_algorithm_text() -> Seq<char> {
    "Algorithm not supported"@
}

/// What `hasher` answers for a text that is too long for the digests.
pub open spec fn too_long_text() -> Seq<char> {
    "Input too long"@
}

/// The digest of `text` by the algorithm named `algorithm`, as a value.
#[verifier::opaque]
pub open spec fn digest_value(algorithm: Seq<char>, text: Seq<char>) -> Value {
    if algorithm == "md5"@ {
        digest_of(md5_hex(text), text)
    } else if algorithm == "sha1"@ {
        digest_of(sha1_hex(text), text)
    } else if algorithm == "sha256"@ {
        digest_of(sha256_hex(text), text)
    } else if algorithm == "sha512"@ {
        digest_of(sha512_hex(text), text)
    } else if algorithm == "sha3_256"@ {
        digest_of(sha3_256_hex(text), text)
    } else if algorithm == "sha3_512"@ {
        digest_of(sha3_512_hex(text), text)
    } else if algorithm == "whirlpool"@ {
        digest_of(whirlpool_hex(text), text)
    } else {
        Value::Error(unknown_algorithm_text())
    }
}

/// The digest `digest` of `text` as a value, or an error where the text is
/// too long to have been digested.
pub open spec fn digest_of(digest: Seq<char>, text: Seq<char>) -> Value {
    if digestible(text) {
        Value::String(digest)
    } else {
        Value::Error(too_long_text())
    }
}

/// What `hasher` answers: the digest of the text of its second argument by
/// the algorithm that its first argument names.
pub open spec fn hasher_value(args: Seq<Value>) -> Value {
    if args.len() != 2 {
        Value::Error(arity_text(args.len(), "mode and string"@))
    } else {
        match args[0] {
            Value::String(algorithm) => digest_value(algorithm, value_text(args[1])),
            other => Value::Error(not_string_text(other)),
        }
    }
}

/// The bindings of `std:hash`.
pub fn add_globals() -> (res: Res)
    ensures
        res@ == crate::std_library::hash_model(),
{
    reveal(crate::std_library::hash_model);
    let mut globals: Vec<(String, Object)> = Vec::new();
    let mut name = String::new();
    push_text(&mut name, "hasher");
    assert(name@ =~= "hasher"@);
    globals.push((name, Object::Builtin(Builtin::Hasher)));
    let res = Res { globals, raw: None };
    assert(res@.globals =~= crate::std_library::hash_model().globals);
    res
}

/// Whether `text` is short enough for the digests.
fn is_digestible(text: &str) -> (r: bool)
    ensures
        r == digestible(text@),
{
    let n = text.as_bytes().len();
    (n as u64) < DIGEST_LIMIT
}

/// The error for a text that is too long.
fn too_long() -> (e: Object)
    ensures
        e@ == Value::Error(too_long_text()),
{
    let mut m = String::new();
    push_text(&mut m, "Input too long");
    assert(m@ =~= too_long_text());
    Object::Error(m)
}

/// The digest of the text of `args[1]` by the algorithm that `args[0]`
/// names: `md5`, `sha1`, `sha256`, `sha512`, `sha3_256`, `sha3_512` or
/// `whirlpool`.
pub fn hasher(args: Vec<Object>) -> (r: Object)
    ensures
        r@ == hasher_value(objects_model(args@)),
{
    reveal(digest_value);
    if args.len() != 2 {
        return arity_error(args.len(), "mode and string");
    }
    assert(objects_model(args@)[0] == args[0]@);
    assert(objects_model(args@)[1] == args[1]@);
    match &args[0] {
        Object::String(algorithm) => {
            let text = args[1].to_text();
            let fits = is_digestible(text.as_str());
            let name = algorithm.as_str();
            if same_text(name, "md5") {
                if fits {
                    Object::String(md5(text.as_str()))
                } else {
                    too_long()
                }
            } else if same_text(name, "sha1") {
                if fits {
                    Object::String(sha1(text.as_str()))
                } else {
                    too_long()
                }
            } else if same_text(name, "sha256") {
                if fits {
                    Object::String(sha256(text.as_str()))
                } else {
                    too_long()
                }
            } else if same_text(name, "sha512") {
                if fits {
                    Object::String(sha512(text.as_str()))
                } else {
                    too_long()
                }
            } else if same_text(name, "sha3_256") {
                if fits {
                    Object::String(sha3_256(text.as_str()))
                } else {
                    too_long()
                }
            } else if same_text(name, "sha3_512") {
                if fits {
                    Object::String(sha3_512(text.as_str()))
                } else {
                    too_long()
                }
            } else if same_text(name, "whirlpool") {
                if fits {
                    Object::String(whirlpool(text.as_str()))
                } else {
                    too_long()
                }
            } else {
                let mut m = String::new();
                push_text(&mut m, "Algorithm not supported");
                assert(m@ =~= unknown_algorithm_text());
                Object::Error(m)
            }
        },
        other => {
            let mut m = String::new();
            push_text(&mut m, "First argument must be a string. Got ");
            other.write(&mut m);
            assert(m@ =~= not_string_text(other@));
            Object::Error(m)
        },
    }
}

} // verus!
