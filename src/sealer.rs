use vstd::prelude::*;

use crate::codec::{
    all_sep_free, decode_hex, encode_hex, hex_of, is_hex_text, join_sep, lemma_hex_round_trip,
    lemma_join_push, lemma_split_join, push_field, split_fields, split_of, unhex, views,
};

verus! {

/// Why a result could not be sealed.
#[derive(Clone, Copy, Debug, PartialEq, Eq, Structural)]
pub enum SealError {
    /// The recipient's public key is not hex text.
    KeyDecode,
    /// Hashing, signing or encrypting failed.
    Crypto,
}

/// The three parts of a sealed result.
pub struct SealedResult {
    pub task_id: Vec<u8>,
    pub hash: Vec<u8>,
    pub signature: Vec<u8>,
    pub ciphertext: Vec<u8>,
}

pub const NEWLINE: u8 = 10;

pub const SPACE: u8 = 32;

/// `s` with each newline replaced by a space.
pub open spec fn flatten_lines(s: Seq<u8>) -> Seq<u8> {
    s.map_values(|c: u8| if c == NEWLINE { SPACE } else { c })
}

/// The sealed payload: hash, signature and ciphertext as hex text, separated by dots.
pub open spec fn sealed_of(hash: Seq<u8>, signature: Seq<u8>, ciphertext: Seq<u8>) -> Seq<u8> {
    join_sep(seq![hex_of(hash), hex_of(signature), hex_of(ciphertext)])
}

/// What a sealed payload splits into: `None` unless it has three hex fields.
pub open spec fn parse_sealed(s: Seq<u8>) -> Option<(Seq<u8>, Seq<u8>, Seq<u8>)> {
    let f = split_of(s);
    if f.len() == 3 && is_hex_text(f[0]) && is_hex_text(f[1]) && is_hex_text(f[2]) {
        Some((unhex(f[0]), unhex(f[1]), unhex(f[2])))
    } else {
        None
    }
}

/// A sealed payload splits at its separators into exactly three parts, and
/// each part gives back its field.
pub proof fn lemma_sealed_shape(hash: Seq<u8>, signature: Seq<u8>, ciphertext: Seq<u8>)
    ensures
        split_of(sealed_of(hash, signature, ciphertext)).len() == 3,
        parse_sealed(sealed_of(hash, signature, ciphertext)) == Some((hash, signature, ciphertext)),
{
    let f = seq![hex_of(hash), hex_of(signature), hex_of(ciphertext)];
    lemma_hex_round_trip(hash);
    lemma_hex_round_trip(signature);
    lemma_hex_round_trip(ciphertext);
    assert(all_sep_free(f));
    lemma_split_join(f);
}

/// Replaces each newline of `s` by a space.
pub fn flatten_newlines(s: &Vec<u8>) -> (r: Vec<u8>)
    ensures
        r@ == flatten_lines(s@),
{
    let mut out: Vec<u8> = Vec::new();
    let mut i: usize = 0;
    while i < s.len()
        invariant
            i <= s.len(),
            out@ == flatten_lines(s@.subrange(0, i as int)),
        decreases s.len() - i,
    {
        let c = s[i];
        if c == NEWLINE {
            out.push(SPACE);
        } else {
            out.push(c);
        }
        i = i + 1;
        assert(out@ =~= flatten_lines(s@.subrange(0, i as int)));
    }
    assert(s@.subrange(0, s.len() as int) =~= s@);
    out
}

/// Makes a result ready for the crypto step: the text with newlines flattened,
/// and the recipient's key as raw bytes. `Err(KeyDecode)` exactly where the
/// key is not hex text.
pub fn prepare_seal(result: &Vec<u8>, public_key: &Vec<u8>) -> (r: Result<
    (Vec<u8>, Vec<u8>),
    SealError,
>)
    ensures
        r is Err <==> !is_hex_text(public_key@),
        r is Err ==> r == Err::<(Vec<u8>, Vec<u8>), SealError>(SealError::KeyDecode),
        r is Ok ==> r->Ok_0.0@ == flatten_lines(result@) && r->Ok_0.1@ == unhex(public_key@),
{
    match decode_hex(public_key) {
        None => Err(SealError::KeyDecode),
        Some(key) => Ok((flatten_newlines(result), key)),
    }
}

impl SealedResult {
    /// The payload text of this result.
    pub fn encode(&self) -> (r: Vec<u8>)
        ensures
            r@ == sealed_of(self.hash@, self.signature@, self.ciphertext@),
    {
        let ghost f = seq![hex_of(self.hash@), hex_of(self.signature@), hex_of(self.ciphertext@)];
        let mut out: Vec<u8> = Vec::new();
        push_field(&mut out, true, &encode_hex(&self.hash));
        assert(out@ =~= join_sep(f.subrange(0, 1)));
        push_field(&mut out, false, &encode_hex(&self.signature));
        proof {
            lemma_join_push(f.subrange(0, 1), f[1]);
            assert(f.subrange(0, 1).push(f[1]) =~= f.subrange(0, 2));
        }
        push_field(&mut out, false, &encode_hex(&self.ciphertext));
        proof {
            lemma_join_push(f.subrange(0, 2), f[2]);
            assert(f.subrange(0, 2).push(f[2]) =~= f);
        }
        out
    }
}

/// Splits a sealed payload into hash, signature and ciphertext.
pub fn split_sealed(payload: &Vec<u8>) -> (r: Option<(Vec<u8>, Vec<u8>, Vec<u8>)>)
    ensures
        r is None <==> parse_sealed(payload@) is None,
        r is Some ==> parse_sealed(payload@) == Some(
            (r->Some_0.0@, r->Some_0.1@, r->Some_0.2@),
        ),
{
    let fields = split_fields(payload);
    let ghost f = views(fields@);
    if fields.len() != 3 {
        return None;
    }
    assert(f[0] == fields[0]@ && f[1] == fields[1]@ && f[2] == fields[2]@);
    let hash = match decode_hex(&fields[0]) {
        Some(v) => v,
        None => return None,
    };
    let signature = match decode_hex(&fields[1]) {
        Some(v) => v,
        None => return None,
    };
    let ciphertext = match decode_hex(&fields[2]) {
        Some(v) => v,
        None => return None,
    };
    Some((hash, signature, ciphertext))
}

} // verus!
