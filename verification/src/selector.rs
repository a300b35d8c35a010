//! Call selectors: the first eight bytes of the SHA-256 digest of
//! `"{namespace}:{name}"`.

use vstd::prelude::*;
use vstd::string::*;
use vstd::utf8::*;

verus! {

/// The SHA-256 digest of `data`, as computed by
/// `anchor_lang::solana_program::hash::hash`.
pub uninterp spec fn sha256(data: Seq<u8>) -> Seq<u8>;

/// Calls `anchor_lang::solana_program::hash::hash` and unwraps the `Hash`
/// with `to_bytes`. The digest depends on the input bytes alone; the
/// contract names it `sha256` and claims nothing else.
#[verifier::external_body]
fn sha256_digest(data: &[u8]) -> (digest: [u8; 32])
    ensures
        digest@ == sha256(data@),
{
    anchor_lang::solana_program::hash::hash(data).to_bytes()
}

/// The text that is hashed for a selector, as characters.
pub open spec fn selector_text(namespace: Seq<char>, name: Seq<char>) -> Seq<char> {
    namespace + seq![':'] + name
}

/// The selector of `name` in `namespace`: eight bytes, the first eight of
/// the digest of the text.
pub open spec fn selector_spec(namespace: Seq<char>, name: Seq<char>) -> Seq<u8> {
    Seq::new(8, |i: int| sha256(selector_preimage(namespace, name))[i])
}

/// The bytes that are hashed for the selector of `name` in `namespace`.
pub open spec fn selector_preimage(namespace: Seq<char>, name: Seq<char>) -> Seq<u8> {
    encode_utf8(selector_text(namespace, name))
}

/// Different texts are hashed as different bytes. Whether their selectors
/// differ is then a matter of the digest alone.
pub proof fn lemma_distinct_texts_have_distinct_preimages(
    namespace: Seq<char>,
    name: Seq<char>,
    other_namespace: Seq<char>,
    other_name: Seq<char>,
)
    requires
        selector_text(namespace, name) != selector_text(other_namespace, other_name),
    ensures
        selector_preimage(namespace, name) != selector_preimage(other_namespace, other_name),
{
    encode_utf8_decode_utf8(selector_text(namespace, name));
    encode_utf8_decode_utf8(selector_text(other_namespace, other_name));
}

/// A selector has eight bytes, whatever the names are.
pub proof fn lemma_selector_len(namespace: Seq<char>, name: Seq<char>)
    ensures
        selector_spec(namespace, name).len() == 8,
{
}

/// A selector is a function of the namespace and the name: the same two
/// texts always have the same selector.
pub proof fn lemma_selector_deterministic(
    namespace: Seq<char>,
    name: Seq<char>,
    other_namespace: Seq<char>,
    other_name: Seq<char>,
)
    requires
        namespace == other_namespace,
        name == other_name,
    ensures
        selector_spec(namespace, name) == selector_spec(other_namespace, other_name),
{
}

/// Derives the selector of `name` in `namespace`.
pub fn selector(namespace: &str, name: &str) -> (out: [u8; 8])
    ensures
        out@ == selector_spec(namespace@, name@),
{
    let mut text = String::from_str(namespace);
    text.append(":");
    text.append(name);
    proof {
        reveal_strlit(":");
        assert(":"@ =~= seq![':']);
        assert(text@ =~= selector_text(namespace@, name@));
    }
    let digest = sha256_digest(text.as_str().as_bytes());
    let out: [u8; 8] = [
        digest[0],
        digest[1],
        digest[2],
        digest[3],
        digest[4],
        digest[5],
        digest[6],
        digest[7],
    ];
    assert(out@ =~= selector_spec(namespace@, name@));
    out
}

} // verus!
