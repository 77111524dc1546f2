use vstd::prelude::*;

use crate::codec::{
    SEP, all_sep_free, decode_hex, encode_hex, hex_of, is_hex_text, join_sep, lemma_hex_round_trip,
    lemma_join_push, lemma_split_join, push_field, split_fields, split_of, unhex, views,
};

verus! {

/// One inbound unit of work.
pub struct TaskPayload {
    pub task_id: Vec<u8>,
    pub input: Vec<u8>,
    /// Absolute time in nanoseconds after which the task is discarded.
    pub deadline: u64,
    /// Hex text of the requester's public key.
    pub public_key: Vec<u8>,
    /// The responsibility filter, as published with the task.
    pub filter: Vec<u8>,
}

pub ghost struct PayloadModel {
    pub task_id: Seq<u8>,
    pub input: Seq<u8>,
    pub deadline: u64,
    pub public_key: Seq<u8>,
    pub filter: Seq<u8>,
}

impl View for TaskPayload {
    type V = PayloadModel;

    open spec fn view(&self) -> PayloadModel {
        PayloadModel {
            task_id: self.task_id@,
            input: self.input@,
            deadline: self.deadline,
            public_key: self.public_key@,
            filter: self.filter@,
        }
    }
}

/// A message that is not a task envelope.
#[derive(Clone, Copy, Debug, PartialEq, Eq, Structural)]
pub struct DecodeError;

/// The eight bytes of `d`, most significant first.
pub open spec fn be_bytes(d: u64) -> Seq<u8> {
    seq![
        (d >> 56u64) as u8,
        (d >> 48u64) as u8,
        (d >> 40u64) as u8,
        (d >> 32u64) as u8,
        (d >> 24u64) as u8,
        (d >> 16u64) as u8,
        (d >> 8u64) as u8,
        d as u8,
    ]
}

/// The number that eight bytes stand for, most significant first.
pub open spec fn be_value(b: Seq<u8>) -> u64 {
    (b[0] as u64) << 56u64 | (b[1] as u64) << 48u64 | (b[2] as u64) << 40u64 | (b[3] as u64)
        << 32u64 | (b[4] as u64) << 24u64 | (b[5] as u64) << 16u64 | (b[6] as u64) << 8u64
        | (b[7] as u64)
}

pub proof fn lemma_be_round_trip(d: u64)
    ensures
        be_value(be_bytes(d)) == d,
{
    assert(((d >> 56u64) as u8 as u64) << 56u64 | ((d >> 48u64) as u8 as u64) << 48u64 | ((d
        >> 40u64) as u8 as u64) << 40u64 | ((d >> 32u64) as u8 as u64) << 32u64 | ((d >> 24u64) as u8
        as u64) << 24u64 | ((d >> 16u64) as u8 as u64) << 16u64 | ((d >> 8u64) as u8 as u64) << 8u64
        | (d as u8 as u64) == d) by (bit_vector);
}

/// The fields of the envelope of `p`, each as hex text.
pub open spec fn envelope_fields(p: PayloadModel) -> Seq<Seq<u8>> {
    seq![
        hex_of(p.task_id),
        hex_of(p.input),
        hex_of(be_bytes(p.deadline)),
        hex_of(p.public_key),
        hex_of(p.filter),
    ]
}

/// The envelope of `p`: its fields as hex text, separated by dots.
pub open spec fn envelope_of(p: PayloadModel) -> Seq<u8> {
    join_sep(envelope_fields(p))
}

/// What a message decodes to: `None` unless it has five hex fields and the
/// third stands for exactly eight bytes.
pub open spec fn parse_envelope(s: Seq<u8>) -> Option<PayloadModel> {
    let f = split_of(s);
    if f.len() == 5 && is_hex_text(f[0]) && is_hex_text(f[1]) && is_hex_text(f[2])
        && is_hex_text(f[3]) && is_hex_text(f[4]) && unhex(f[2]).len() == 8 {
        Some(
            PayloadModel {
                task_id: unhex(f[0]),
                input: unhex(f[1]),
                deadline: be_value(unhex(f[2])),
                public_key: unhex(f[3]),
                filter: unhex(f[4]),
            },
        )
    } else {
        None
    }
}

/// Decoding the envelope of a payload gives back each of its fields.
pub proof fn lemma_envelope_round_trip(p: PayloadModel)
    ensures
        parse_envelope(envelope_of(p)) == Some(p),
{
    let f = envelope_fields(p);
    lemma_hex_round_trip(p.task_id);
    lemma_hex_round_trip(p.input);
    lemma_hex_round_trip(be_bytes(p.deadline));
    lemma_hex_round_trip(p.public_key);
    lemma_hex_round_trip(p.filter);
    lemma_be_round_trip(p.deadline);
    assert(all_sep_free(f));
    lemma_split_join(f);
}

fn u64_to_be(d: u64) -> (r: Vec<u8>)
    ensures
        r@ == be_bytes(d),
{
    let r = vec![
        (d >> 56u64) as u8,
        (d >> 48u64) as u8,
        (d >> 40u64) as u8,
        (d >> 32u64) as u8,
        (d >> 24u64) as u8,
        (d >> 16u64) as u8,
        (d >> 8u64) as u8,
        d as u8,
    ];
    assert(r@ =~= be_bytes(d));
    r
}

fn be_to_u64(b: &Vec<u8>) -> (r: u64)
    requires
        b.len() == 8,
    ensures
        r == be_value(b@),
{
    (b[0] as u64) << 56u64 | (b[1] as u64) << 48u64 | (b[2] as u64) << 40u64 | (b[3] as u64)
        << 32u64 | (b[4] as u64) << 24u64 | (b[5] as u64) << 16u64 | (b[6] as u64) << 8u64
        | (b[7] as u64)
}

impl TaskPayload {
    pub fn new(
        task_id: Vec<u8>,
        input: Vec<u8>,
        deadline: u64,
        public_key: Vec<u8>,
        filter: Vec<u8>,
    ) -> (r: TaskPayload)
        ensures
            r.task_id@ == task_id@,
            r.input@ == input@,
            r.deadline == deadline,
            r.public_key@ == public_key@,
            r.filter@ == filter@,
    {
        TaskPayload { task_id, input, deadline, public_key, filter }
    }

    /// The message that carries this payload.
    pub fn encode_envelope(&self) -> (r: Vec<u8>)
        ensures
            r@ == envelope_of(self@),
    {
        let ghost f = envelope_fields(self@);
        let mut out: Vec<u8> = Vec::new();
        push_field(&mut out, true, &encode_hex(&self.task_id));
        assert(out@ =~= join_sep(f.subrange(0, 1)));
        push_field(&mut out, false, &encode_hex(&self.input));
        proof {
            lemma_join_push(f.subrange(0, 1), f[1]);
            assert(f.subrange(0, 1).push(f[1]) =~= f.subrange(0, 2));
        }
        push_field(&mut out, false, &encode_hex(&u64_to_be(self.deadline)));
        proof {
            lemma_join_push(f.subrange(0, 2), f[2]);
            assert(f.subrange(0, 2).push(f[2]) =~= f.subrange(0, 3));
        }
        push_field(&mut out, false, &encode_hex(&self.public_key));
        proof {
            lemma_join_push(f.subrange(0, 3), f[3]);
            assert(f.subrange(0, 3).push(f[3]) =~= f.subrange(0, 4));
        }
        push_field(&mut out, false, &encode_hex(&self.filter));
        proof {
            lemma_join_push(f.subrange(0, 4), f[4]);
            assert(f.subrange(0, 4).push(f[4]) =~= f);
        }
        out
    }

    /// Decodes one inbound message; `Err` exactly where `parse_envelope` has none.
    pub fn decode_envelope(msg: &Vec<u8>) -> (r: Result<TaskPayload, DecodeError>)
        ensures
            r is Err <==> parse_envelope(msg@) is None,
            r is Ok ==> parse_envelope(msg@) == Some(r->Ok_0@),
    {
        let fields = split_fields(msg);
        let ghost f = views(fields@);
        if fields.len() != 5 {
            return Err(DecodeError);
        }
        assert(f[0] == fields[0]@ && f[1] == fields[1]@ && f[2] == fields[2]@);
        assert(f[3] == fields[3]@ && f[4] == fields[4]@);
        let task_id = match decode_hex(&fields[0]) {
            Some(v) => v,
            None => return Err(DecodeError),
        };
        let input = match decode_hex(&fields[1]) {
            Some(v) => v,
            None => return Err(DecodeError),
        };
        let deadline_bytes = match decode_hex(&fields[2]) {
            Some(v) => v,
            None => return Err(DecodeError),
        };
        let public_key = match decode_hex(&fields[3]) {
            Some(v) => v,
            None => return Err(DecodeError),
        };
        let filter = match decode_hex(&fields[4]) {
            Some(v) => v,
            None => return Err(DecodeError),
        };
        if deadline_bytes.len() != 8 {
            return Err(DecodeError);
        }
        let deadline = be_to_u64(&deadline_bytes);
        let p = TaskPayload { task_id, input, deadline, public_key, filter };
        assert(parse_envelope(msg@) == Some(p@));
        Ok(p)
    }
}

} // verus!
