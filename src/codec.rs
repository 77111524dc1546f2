use vstd::prelude::*;

verus! {

/// The byte that separates the fields of every text encoding of this crate.
pub const SEP: u8 = 46;

/// The lowercase ASCII hex digit for a value below 16.
pub open spec fn hex_digit(n: u8) -> u8 {
    if n < 10 {
        (48 + n) as u8
    } else {
        (87 + n) as u8
    }
}

/// Lowercase hex text of `b`: two digits per byte, high nibble first.
pub open spec fn hex_of(b: Seq<u8>) -> Seq<u8> {
    Seq::new(
        2 * b.len(),
        |i: int|
            if i % 2 == 0 {
                hex_digit(b[i / 2] / 16)
            } else {
                hex_digit(b[i / 2] % 16)
            },
    )
}

/// The value of one hex digit, either case.
pub open spec fn nibble(c: u8) -> Option<u8> {
    if 48 <= c && c <= 57 {
        Some((c - 48) as u8)
    } else if 97 <= c && c <= 102 {
        Some((c - 87) as u8)
    } else if 65 <= c && c <= 70 {
        Some((c - 55) as u8)
    } else {
        None
    }
}

/// An even number of hex digits.
pub open spec fn is_hex_text(s: Seq<u8>) -> bool {
    &&& s.len() % 2 == 0
    &&& forall|i: int| 0 <= i < s.len() ==> nibble(#[trigger] s[i]) is Some
}

/// The bytes that hex text stands for.
pub open spec fn unhex(s: Seq<u8>) -> Seq<u8> {
    Seq::new(
        s.len() / 2,
        |i: int| (nibble(s[2 * i]).unwrap() * 16 + nibble(s[2 * i + 1]).unwrap()) as u8,
    )
}

/// No separator byte occurs in `s`.
pub open spec fn sep_free(s: Seq<u8>) -> bool {
    forall|i: int| 0 <= i < s.len() ==> #[trigger] s[i] != SEP
}

pub open spec fn all_sep_free(parts: Seq<Seq<u8>>) -> bool {
    forall|k: int| 0 <= k < parts.len() ==> sep_free(#[trigger] parts[k])
}

/// The contents of each buffer.
pub open spec fn views(v: Seq<Vec<u8>>) -> Seq<Seq<u8>> {
    Seq::new(v.len(), |i: int| v[i]@)
}

/// The parts written one after another with a separator between each two.
pub open spec fn join_sep(parts: Seq<Seq<u8>>) -> Seq<u8>
    decreases parts.len(),
{
    if parts.len() == 0 {
        Seq::empty()
    } else if parts.len() == 1 {
        parts[0]
    } else {
        join_sep(parts.drop_last()) + seq![SEP] + parts.last()
    }
}

proof fn lemma_digit_round_trip(n: u8)
    requires
        n < 16,
    ensures
        nibble(hex_digit(n)) == Some(n),
        hex_digit(n) != SEP,
{
}

/// Hex text holds no separator and reads back as the bytes it was made from.
pub proof fn lemma_hex_round_trip(b: Seq<u8>)
    ensures
        is_hex_text(hex_of(b)),
        sep_free(hex_of(b)),
        unhex(hex_of(b)) == b,
{
    let h = hex_of(b);
    assert forall|i: int| 0 <= i < h.len() implies nibble(#[trigger] h[i]) is Some && h[i] != SEP by {
        lemma_digit_round_trip(b[i / 2] / 16);
        lemma_digit_round_trip(b[i / 2] % 16);
    }
    assert forall|k: int| 0 <= k < b.len() implies #[trigger] unhex(h)[k] == b[k] by {
        assert((2 * k) / 2 == k);
        assert((2 * k + 1) / 2 == k);
        assert((2 * k) % 2 == 0);
        assert((2 * k + 1) % 2 == 1);
        lemma_digit_round_trip(b[k] / 16);
        lemma_digit_round_trip(b[k] % 16);
    }
    assert(unhex(h) =~= b);
}

proof fn lemma_join_len(parts: Seq<Seq<u8>>)
    requires
        parts.len() >= 2,
    ensures
        join_sep(parts).len() == join_sep(parts.drop_last()).len() + 1 + parts.last().len(),
        join_sep(parts)[join_sep(parts.drop_last()).len() as int] == SEP,
{
}

proof fn lemma_join_sep_free(parts: Seq<Seq<u8>>)
    requires
        parts.len() == 1,
        all_sep_free(parts),
    ensures
        sep_free(join_sep(parts)),
{
    assert(sep_free(parts[0]));
}

/// A joining of separator-free parts determines the parts.
pub proof fn lemma_join_injective(a: Seq<Seq<u8>>, b: Seq<Seq<u8>>)
    requires
        a.len() >= 1,
        b.len() >= 1,
        all_sep_free(a),
        all_sep_free(b),
        join_sep(a) == join_sep(b),
    ensures
        a == b,
    decreases a.len() + b.len(),
{
    let s = join_sep(a);
    if a.len() == 1 && b.len() == 1 {
        assert(a =~= b);
    } else if a.len() == 1 {
        lemma_join_sep_free(a);
        lemma_join_len(b);
        let p = join_sep(b.drop_last()).len() as int;
        assert(s[p] == SEP);
    } else if b.len() == 1 {
        lemma_join_sep_free(b);
        lemma_join_len(a);
        let p = join_sep(a.drop_last()).len() as int;
        assert(s[p] == SEP);
    } else {
        lemma_join_len(a);
        lemma_join_len(b);
        let pa = join_sep(a.drop_last()).len() as int;
        let pb = join_sep(b.drop_last()).len() as int;
        let la = a.last();
        let lb = b.last();
        assert(sep_free(la));
        assert(sep_free(lb));
        if pa < pb {
            assert(s[pb] == SEP);
            assert(s[pb] == la[pb - pa - 1]);
        } else if pb < pa {
            assert(s[pa] == SEP);
            assert(s[pa] == lb[pa - pb - 1]);
        }
        assert(la =~= s.subrange(pa + 1, s.len() as int));
        assert(lb =~= s.subrange(pb + 1, s.len() as int));
        assert(join_sep(a.drop_last()) =~= s.subrange(0, pa));
        assert(join_sep(b.drop_last()) =~= s.subrange(0, pb));
        assert(all_sep_free(a.drop_last()));
        assert(all_sep_free(b.drop_last()));
        lemma_join_injective(a.drop_last(), b.drop_last());
        assert(a =~= a.drop_last().push(la));
        assert(b =~= b.drop_last().push(lb));
    }
}

/// The parts of `s` between separators: the one separator-free splitting of `s`.
pub open spec fn split_of(s: Seq<u8>) -> Seq<Seq<u8>> {
    choose|parts: Seq<Seq<u8>>| parts.len() >= 1 && all_sep_free(parts) && join_sep(parts) == s
}

/// Splitting a joining of separator-free parts gives the parts back.
pub proof fn lemma_split_join(parts: Seq<Seq<u8>>)
    requires
        parts.len() >= 1,
        all_sep_free(parts),
    ensures
        split_of(join_sep(parts)) == parts,
{
    let s = join_sep(parts);
    let q = split_of(s);
    assert(parts.len() >= 1 && all_sep_free(parts) && join_sep(parts) == s);
    lemma_join_injective(q, parts);
}

pub proof fn lemma_join_push(parts: Seq<Seq<u8>>, p: Seq<u8>)
    requires
        parts.len() >= 1,
    ensures
        join_sep(parts.push(p)) == join_sep(parts) + seq![SEP] + p,
{
    assert(parts.push(p).drop_last() =~= parts);
}

/// Splits `s` at every separator byte.
pub fn split_fields(s: &Vec<u8>) -> (r: Vec<Vec<u8>>)
    ensures
        r.len() >= 1,
        all_sep_free(views(r@)),
        join_sep(views(r@)) == s@,
        views(r@) == split_of(s@),
{
    let mut parts: Vec<Vec<u8>> = Vec::new();
    let mut cur: Vec<u8> = Vec::new();
    let mut i: usize = 0;
    while i < s.len()
        invariant
            i <= s.len(),
            all_sep_free(views(parts@).push(cur@)),
            join_sep(views(parts@).push(cur@)) == s@.subrange(0, i as int),
        decreases s.len() - i,
    {
        let c = s[i];
        let ghost before = views(parts@).push(cur@);
        if c == SEP {
            parts.push(cur);
            cur = Vec::new();
            let ghost after = views(parts@).push(cur@);
            assert(views(parts@) =~= before);
            assert(after.drop_last() =~= before);
            assert(after.len() >= 2);
            assert(join_sep(after) =~= s@.subrange(0, i as int + 1));
        } else {
            let ghost pv = views(parts@);
            cur.push(c);
            let ghost after = views(parts@).push(cur@);
            assert(views(parts@) =~= pv);
            assert(after =~= pv.push(cur@));
            assert(all_sep_free(after)) by {
                assert(sep_free(before[before.len() - 1]));
                assert(cur@.drop_last() =~= before[before.len() - 1]);
                assert forall|j: int| 0 <= j < cur@.len() implies #[trigger] cur@[j] != SEP by {
                    if j < cur@.len() - 1 {
                        assert(cur@[j] == before[before.len() - 1][j]);
                    }
                }
                assert forall|k: int| 0 <= k < after.len() implies sep_free(#[trigger] after[k]) by {
                    if k < after.len() - 1 {
                        assert(after[k] == before[k]);
                    }
                }
            }
            assert(after.drop_last() =~= before.drop_last());
            proof {
                if after.len() >= 2 {
                    assert(join_sep(after) =~= join_sep(before) + seq![c]);
                }
            }
            assert(join_sep(after) =~= s@.subrange(0, i as int + 1));
        }
        i = i + 1;
    }
    let ghost last = views(parts@).push(cur@);
    parts.push(cur);
    assert(views(parts@) =~= last);
    assert(s@.subrange(0, s.len() as int) =~= s@);
    proof {
        lemma_split_join(views(parts@));
    }
    parts
}

/// Appends `part` and, where `out` already holds a part, a separator before it.
pub fn push_field(out: &mut Vec<u8>, first: bool, part: &Vec<u8>)
    ensures
        first ==> final(out)@ == old(out)@ + part@,
        !first ==> final(out)@ == old(out)@ + seq![SEP] + part@,
{
    if !first {
        out.push(SEP);
    }
    let ghost start = out@;
    let mut i: usize = 0;
    while i < part.len()
        invariant
            i <= part.len(),
            out@ == start + part@.subrange(0, i as int),
        decreases part.len() - i,
    {
        out.push(part[i]);
        i = i + 1;
        assert(out@ =~= start + part@.subrange(0, i as int));
    }
    assert(part@.subrange(0, part.len() as int) =~= part@);
}

/// Relies on hex::decode: `Ok` exactly on an even number of hex digits of
/// either case, each pair read as one byte, high nibble first.
#[verifier::external_body]
pub(crate) fn decode_hex(text: &Vec<u8>) -> (r: Option<Vec<u8>>)
    ensures
        r is Some <==> is_hex_text(text@),
        r is Some ==> r.unwrap()@ == unhex(text@),
{
    hex::decode(text).ok()
}

/// Relies on hex::encode: two lowercase digits per byte, high nibble first.
#[verifier::external_body]
pub(crate) fn encode_hex(bytes: &Vec<u8>) -> (r: Vec<u8>)
    ensures
        r@ == hex_of(bytes@),
{
    hex::encode(bytes).into_bytes()
}

} // verus!
