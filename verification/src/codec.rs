use vstd::prelude::*;

verus! {

/// Capacity in bytes allocated for a poll record: a 32-byte text budget
/// plus two 4-byte counters.
pub const RECORD_SPACE: usize = 40;

/// Bytes of fixed framing in an encoded record: the 4-byte length prefix
/// of the topic and the two 4-byte counters.
pub const RECORD_FRAME: usize = 12;

/// Whether `b` is well-formed UTF-8. The program never inspects the
/// characters themselves; it only refuses instructions and records whose
/// topic bytes are not text, as the wire format demands.
pub uninterp spec fn is_utf8(b: Seq<u8>) -> bool;

/// Relies on `core::str::from_utf8`: whether it accepts a slice depends on
/// the bytes alone, and it documents that any slice of seven-bit bytes
/// (so in particular the empty slice) is accepted.
#[verifier::external_body]
fn check_utf8(b: &Vec<u8>) -> (r: bool)
    ensures
        r == is_utf8(b@),
        (forall|i: int| 0 <= i < b@.len() ==> b@[i] < 128) ==> r,
{
    core::str::from_utf8(b).is_ok()
}

/// The persisted poll state: a topic fixed at initialization and two
/// tallies. The topic is held as its UTF-8 bytes; the codec checks on
/// decode that they are well-formed text.
pub struct VoteAccount {
    pub topic: Vec<u8>,
    pub yes_votes: u32,
    pub no_votes: u32,
}

/// The ghost image of a poll record.
#[verifier::ext_equal]
pub ghost struct RecordModel {
    pub topic: Seq<u8>,
    pub yes_votes: u32,
    pub no_votes: u32,
}

impl View for VoteAccount {
    type V = RecordModel;

    open spec fn view(&self) -> RecordModel {
        RecordModel { topic: self.topic@, yes_votes: self.yes_votes, no_votes: self.no_votes }
    }
}

/// One inbound call, decoded from the opaque payload.
pub enum VoteInstruction {
    InitializeVote { topic: Vec<u8> },
    CastVote { vote: bool },
}

/// The ghost image of an instruction.
#[verifier::ext_equal]
pub ghost enum InstructionModel {
    InitializeVote { topic: Seq<u8> },
    CastVote { vote: bool },
}

impl View for VoteInstruction {
    type V = InstructionModel;

    open spec fn view(&self) -> InstructionModel {
        match self {
            VoteInstruction::InitializeVote { topic } => InstructionModel::InitializeVote {
                topic: topic@,
            },
            VoteInstruction::CastVote { vote } => InstructionModel::CastVote { vote: *vote },
        }
    }
}

/// The four little-endian bytes of `n`.
pub open spec fn spec_u32_le(n: u32) -> Seq<u8> {
    seq![
        (n % 256) as u8,
        ((n / 256) % 256) as u8,
        ((n / 0x10000) % 256) as u8,
        ((n / 0x1000000) % 256) as u8,
    ]
}

/// The value of four little-endian bytes.
pub open spec fn spec_u32_from_le(b: Seq<u8>) -> u32
    recommends
        b.len() == 4,
{
    (b[0] + b[1] * 0x100 + b[2] * 0x10000 + b[3] * 0x1000000) as u32
}

/// Reading back the four little-endian bytes of `n` yields `n`.
pub proof fn lemma_u32_le_round_trip(n: u32)
    ensures
        spec_u32_from_le(spec_u32_le(n)) == n,
{
    assert(n % 256 + ((n / 256) % 256) * 0x100 + ((n / 0x10000) % 256) * 0x10000 + ((n
        / 0x1000000) % 256) * 0x1000000 == n) by (bit_vector);
}

/// The encoded form of a record: length-prefixed topic bytes, then the
/// yes tally, then the no tally, integers little-endian.
pub open spec fn spec_encode_record(r: RecordModel) -> Seq<u8>
    recommends
        r.topic.len() <= u32::MAX,
{
    spec_u32_le(r.topic.len() as u32) + r.topic + spec_u32_le(r.yes_votes) + spec_u32_le(
        r.no_votes,
    )
}

/// Decoding a record: strict about truncation and about the topic being
/// text, but tolerant of trailing bytes, since records live in a
/// fixed-capacity buffer that may be larger than the encoding.
pub open spec fn spec_decode_record(b: Seq<u8>) -> Option<RecordModel> {
    if b.len() < 4 {
        None
    } else {
        let n = spec_u32_from_le(b.subrange(0, 4)) as int;
        if b.len() < n + RECORD_FRAME {
            None
        } else {
            let topic = b.subrange(4, 4 + n);
            if is_utf8(topic) {
                Some(
                    RecordModel {
                        topic,
                        yes_votes: spec_u32_from_le(b.subrange(4 + n, 8 + n)),
                        no_votes: spec_u32_from_le(b.subrange(8 + n, 12 + n)),
                    },
                )
            } else {
                None
            }
        }
    }
}

/// The encoded form of an instruction: a one-byte discriminant, then the
/// variant's fields in order.
pub open spec fn spec_encode_instruction(i: InstructionModel) -> Seq<u8>
    recommends
        i matches InstructionModel::InitializeVote { topic } ==> topic.len() <= u32::MAX,
{
    match i {
        InstructionModel::InitializeVote { topic } => seq![0u8] + spec_u32_le(
            topic.len() as u32,
        ) + topic,
        InstructionModel::CastVote { vote } => seq![1u8, if vote { 1u8 } else { 0u8 }],
    }
}

/// Decoding an instruction: strict in every way. Unknown discriminants,
/// truncation, trailing bytes, a vote byte other than 0 or 1, and topic
/// bytes that are not text all fail.
pub open spec fn spec_decode_instruction(b: Seq<u8>) -> Option<InstructionModel> {
    if b.len() < 1 {
        None
    } else if b[0] == 0 {
        if b.len() < 5 {
            None
        } else {
            let n = spec_u32_from_le(b.subrange(1, 5)) as int;
            if b.len() != 5 + n {
                None
            } else {
                let topic = b.subrange(5, 5 + n);
                if is_utf8(topic) {
                    Some(InstructionModel::InitializeVote { topic })
                } else {
                    None
                }
            }
        }
    } else if b[0] == 1 {
        if b.len() == 2 && (b[1] == 0 || b[1] == 1) {
            Some(InstructionModel::CastVote { vote: b[1] == 1 })
        } else {
            None
        }
    } else {
        None
    }
}

/// Appends the four little-endian bytes of `n` to `out`.
fn push_u32_le(out: &mut Vec<u8>, n: u32)
    ensures
        final(out)@ == old(out)@ + spec_u32_le(n),
{
    out.push((n % 256) as u8);
    out.push(((n / 256) % 256) as u8);
    out.push(((n / 0x10000) % 256) as u8);
    out.push(((n / 0x1000000) % 256) as u8);
    proof {
        assert(out@ =~= old(out)@ + spec_u32_le(n));
    }
}

/// Reads the four little-endian bytes at `off`.
fn read_u32_le(b: &Vec<u8>, off: usize) -> (r: u32)
    requires
        off + 4 <= b.len(),
    ensures
        r == spec_u32_from_le(b@.subrange(off as int, off as int + 4)),
{
    let b0 = b[off] as u32;
    let b1 = b[off + 1] as u32;
    let b2 = b[off + 2] as u32;
    let b3 = b[off + 3] as u32;
    let r = b0 + b1 * 0x100 + b2 * 0x10000 + b3 * 0x1000000;
    proof {
        let s = b@.subrange(off as int, off as int + 4);
        assert(s[0] == b@[off as int] && s[1] == b@[off as int + 1] && s[2] == b@[off as int + 2]
            && s[3] == b@[off as int + 3]);
    }
    r
}

/// Appends `src` to `out`.
fn push_bytes(out: &mut Vec<u8>, src: &Vec<u8>)
    ensures
        final(out)@ == old(out)@ + src@,
{
    let mut i: usize = 0;
    while i < src.len()
        invariant
            i <= src@.len(),
            out@ == old(out)@ + src@.subrange(0, i as int),
        decreases src@.len() - i,
    {
        out.push(src[i]);
        proof {
            assert(out@ =~= old(out)@ + src@.subrange(0, i as int + 1));
        }
        i = i + 1;
    }
    proof {
        assert(src@.subrange(0, src@.len() as int) =~= src@);
    }
}

/// Encodes a poll record. The topic's byte length must fit the 4-byte
/// length prefix; every topic that fits an account's capacity does.
pub fn encode_record(rec: &VoteAccount) -> (out: Vec<u8>)
    requires
        rec.topic@.len() <= u32::MAX,
    ensures
        out@ == spec_encode_record(rec@),
        out@.len() == rec.topic@.len() + RECORD_FRAME,
{
    let mut out: Vec<u8> = Vec::new();
    push_u32_le(&mut out, rec.topic.len() as u32);
    push_bytes(&mut out, &rec.topic);
    push_u32_le(&mut out, rec.yes_votes);
    push_u32_le(&mut out, rec.no_votes);
    proof {
        assert(out@ =~= spec_encode_record(rec@));
    }
    out
}

/// Decodes a poll record from a buffer, tolerating trailing bytes.
pub fn decode_record(b: &Vec<u8>) -> (r: Option<VoteAccount>)
    ensures
        match r {
            Some(rec) => spec_decode_record(b@) == Some(rec@) && rec.topic@.len() + RECORD_FRAME
                <= b@.len(),
            None => spec_decode_record(b@) is None,
        },
{
    if b.len() < 4 {
        return None;
    }
    let n32 = read_u32_le(b, 0);
    let n = n32 as usize;
    if b.len() < RECORD_FRAME || b.len() - RECORD_FRAME < n {
        return None;
    }
    let mut topic: Vec<u8> = Vec::new();
    let mut i: usize = 0;
    while i < n
        invariant
            i <= n,
            n + RECORD_FRAME <= b.len(),
            topic@ == b@.subrange(4, 4 + i as int),
        decreases n - i,
    {
        topic.push(b[4 + i]);
        proof {
            assert(topic@ =~= b@.subrange(4, 4 + i as int + 1));
        }
        i = i + 1;
    }
    if !check_utf8(&topic) {
        return None;
    }
    let yes_votes = read_u32_le(b, 4 + n);
    let no_votes = read_u32_le(b, 8 + n);
    let rec = VoteAccount { topic, yes_votes, no_votes };
    proof {
        assert(spec_decode_record(b@) == Some(rec@));
    }
    Some(rec)
}

/// Encodes an instruction. For `InitializeVote` the topic's byte length
/// must fit the 4-byte length prefix.
pub fn encode_instruction(instr: &VoteInstruction) -> (out: Vec<u8>)
    requires
        instr matches VoteInstruction::InitializeVote { topic } ==> topic@.len() <= u32::MAX,
    ensures
        out@ == spec_encode_instruction(instr@),
{
    let mut out: Vec<u8> = Vec::new();
    match instr {
        VoteInstruction::InitializeVote { topic } => {
            out.push(0);
            push_u32_le(&mut out, topic.len() as u32);
            push_bytes(&mut out, topic);
        },
        VoteInstruction::CastVote { vote } => {
            out.push(1);
            out.push(if *vote { 1 } else { 0 });
        },
    }
    proof {
        assert(out@ =~= spec_encode_instruction(instr@));
    }
    out
}

/// Decodes an instruction from a payload, strictly.
pub fn decode_instruction(b: &Vec<u8>) -> (r: Option<VoteInstruction>)
    ensures
        match r {
            Some(instr) => spec_decode_instruction(b@) == Some(instr@),
            None => spec_decode_instruction(b@) is None,
        },
{
    if b.len() < 1 {
        return None;
    }
    if b[0] == 0 {
        if b.len() < 5 {
            return None;
        }
        let n32 = read_u32_le(b, 1);
        let n = n32 as usize;
        if b.len() - 5 != n {
            return None;
        }
        let mut topic: Vec<u8> = Vec::new();
        let mut i: usize = 0;
        while i < n
            invariant
                i <= n,
                n + 5 <= b.len(),
                topic@ == b@.subrange(5, 5 + i as int),
            decreases n - i,
        {
            topic.push(b[5 + i]);
            proof {
                assert(topic@ =~= b@.subrange(5, 5 + i as int + 1));
            }
            i = i + 1;
        }
        if !check_utf8(&topic) {
            return None;
        }
        let instr = VoteInstruction::InitializeVote { topic };
        proof {
            assert(spec_decode_instruction(b@) == Some(instr@));
        }
        Some(instr)
    } else if b[0] == 1 {
        if b.len() != 2 {
            return None;
        }
        if b[1] == 0 || b[1] == 1 {
            Some(VoteInstruction::CastVote { vote: b[1] == 1 })
        } else {
            None
        }
    } else {
        None
    }
}

/// Storage round trip: a record read back out of a buffer that holds its
/// encoding followed by any trailing bytes is the record itself, for any
/// record whose topic is text and fits the length prefix.
pub proof fn lemma_record_decode_with_padding(r: RecordModel, suffix: Seq<u8>)
    ensures
        (r.topic.len() <= u32::MAX && is_utf8(r.topic)) ==> spec_decode_record(
            spec_encode_record(r) + suffix,
        ) == Some(r),
{
    if r.topic.len() <= u32::MAX && is_utf8(r.topic) {
        let b = spec_encode_record(r) + suffix;
        let n = r.topic.len() as int;
        lemma_u32_le_round_trip(r.topic.len() as u32);
        lemma_u32_le_round_trip(r.yes_votes);
        lemma_u32_le_round_trip(r.no_votes);
        assert(b.subrange(0, 4) =~= spec_u32_le(r.topic.len() as u32));
        assert(b.subrange(4, 4 + n) =~= r.topic);
        assert(b.subrange(4 + n, 8 + n) =~= spec_u32_le(r.yes_votes));
        assert(b.subrange(8 + n, 12 + n) =~= spec_u32_le(r.no_votes));
        assert(spec_decode_record(b).unwrap() =~= r);
    }
}

/// Round trip for records: decoding the encoding of any record whose
/// topic is text and fits the length prefix yields the record itself.
pub proof fn lemma_record_round_trip(r: RecordModel)
    ensures
        (r.topic.len() <= u32::MAX && is_utf8(r.topic)) ==> spec_decode_record(
            spec_encode_record(r),
        ) == Some(r),
{
    lemma_record_decode_with_padding(r, Seq::empty());
    assert(spec_encode_record(r) + Seq::<u8>::empty() =~= spec_encode_record(r));
}

/// Round trip for instructions: decoding the encoding of any instruction
/// whose topic, if it has one, is text and fits the length prefix yields
/// the instruction itself.
pub proof fn lemma_instruction_round_trip(i: InstructionModel)
    ensures
        (i matches InstructionModel::InitializeVote { topic } ==> topic.len() <= u32::MAX
            && is_utf8(topic)) ==> spec_decode_instruction(spec_encode_instruction(i)) == Some(i),
{
    match i {
        InstructionModel::InitializeVote { topic } => {
            if topic.len() <= u32::MAX && is_utf8(topic) {
                let b = spec_encode_instruction(i);
                let n = topic.len() as int;
                lemma_u32_le_round_trip(topic.len() as u32);
                assert(b.subrange(1, 5) =~= spec_u32_le(topic.len() as u32));
                assert(b.subrange(5, 5 + n) =~= topic);
                assert(spec_decode_instruction(b).unwrap() =~= i);
            }
        },
        InstructionModel::CastVote { vote } => {
            let b = spec_encode_instruction(i);
            assert(b.len() == 2 && b[0] == 1);
            assert(spec_decode_instruction(b).unwrap() =~= i);
        },
    }
}

} // verus!
