use vote_program::{decode_instruction, decode_record, encode_instruction, encode_record};
use vote_program::{VoteAccount, VoteInstruction, RECORD_SPACE};

fn sample_record(topic: &[u8], yes_votes: u32, no_votes: u32) -> VoteAccount {
    VoteAccount { topic: topic.to_vec(), yes_votes, no_votes }
}

#[test]
fn instruction_round_trip_initialize() {
    let instr = VoteInstruction::InitializeVote { topic: b"Is pizza good?".to_vec() };
    let bytes = encode_instruction(&instr);
    match decode_instruction(&bytes) {
        Some(VoteInstruction::InitializeVote { topic }) => {
            assert_eq!(topic, b"Is pizza good?".to_vec());
        }
        _ => panic!("expected the same instruction back"),
    }
}

#[test]
fn instruction_initialize_exact_bytes() {
    let instr = VoteInstruction::InitializeVote { topic: b"T".to_vec() };
    let bytes = encode_instruction(&instr);
    assert_eq!(bytes, vec![0, 1, 0, 0, 0, 84]);
}

#[test]
fn instruction_round_trip_cast() {
    for vote in [false, true] {
        let instr = VoteInstruction::CastVote { vote };
        let bytes = encode_instruction(&instr);
        assert_eq!(bytes, vec![1, if vote { 1 } else { 0 }]);
        match decode_instruction(&bytes) {
            Some(VoteInstruction::CastVote { vote: v }) => assert_eq!(v, vote),
            _ => panic!("expected the same instruction back"),
        }
    }
}

#[test]
fn instruction_decode_rejects_unknown_discriminant() {
    assert!(decode_instruction(&vec![2]).is_none());
    assert!(decode_instruction(&vec![255, 1]).is_none());
    assert!(decode_instruction(&vec![]).is_none());
}

#[test]
fn instruction_decode_rejects_trailing_bytes() {
    assert!(decode_instruction(&vec![1, 1, 0]).is_none());
    // An initialize payload whose length prefix undercounts the bytes.
    assert!(decode_instruction(&vec![0, 1, 0, 0, 0, 84, 84]).is_none());
}

#[test]
fn instruction_decode_rejects_bad_vote_byte() {
    assert!(decode_instruction(&vec![1, 2]).is_none());
}

#[test]
fn instruction_decode_rejects_truncated_topic() {
    assert!(decode_instruction(&vec![0, 5, 0, 0, 0, 97]).is_none());
    assert!(decode_instruction(&vec![0, 1, 0]).is_none());
}

#[test]
fn instruction_decode_rejects_invalid_utf8_topic() {
    assert!(decode_instruction(&vec![0, 1, 0, 0, 0, 0xFF]).is_none());
}

#[test]
fn record_round_trip() {
    let rec = sample_record(b"cats or dogs", 3, 1);
    let bytes = encode_record(&rec);
    let back = decode_record(&bytes).expect("a valid record must decode");
    assert_eq!(back.topic, rec.topic);
    assert_eq!(back.yes_votes, 3);
    assert_eq!(back.no_votes, 1);
}

#[test]
fn record_exact_bytes() {
    let rec = sample_record(b"T", 2, 259);
    let bytes = encode_record(&rec);
    assert_eq!(bytes, vec![1, 0, 0, 0, 84, 2, 0, 0, 0, 3, 1, 0, 0]);
}

#[test]
fn record_decode_tolerates_padding() {
    let rec = sample_record(b"T", 7, 0);
    let mut bytes = encode_record(&rec);
    while bytes.len() < RECORD_SPACE {
        bytes.push(0);
    }
    let back = decode_record(&bytes).expect("a padded record must decode");
    assert_eq!(back.topic, b"T".to_vec());
    assert_eq!(back.yes_votes, 7);
    assert_eq!(back.no_votes, 0);
}

#[test]
fn record_decode_rejects_truncated() {
    assert!(decode_record(&vec![]).is_none());
    assert!(decode_record(&vec![5, 0, 0, 0, 1, 2]).is_none());
    // The counters are cut short.
    assert!(decode_record(&vec![1, 0, 0, 0, 84, 0, 0, 0]).is_none());
}

#[test]
fn record_decode_rejects_invalid_utf8_topic() {
    let bytes = vec![1, 0, 0, 0, 0xFF, 0, 0, 0, 0, 0, 0, 0, 0];
    assert!(decode_record(&bytes).is_none());
}

#[test]
fn record_round_trip_empty_topic() {
    let rec = sample_record(b"", 0, 0);
    let bytes = encode_record(&rec);
    assert_eq!(bytes, vec![0, 0, 0, 0, 0, 0, 0, 0, 0, 0, 0, 0]);
    let back = decode_record(&bytes).expect("the empty topic must decode");
    assert_eq!(back.topic, Vec::<u8>::new());
    assert_eq!(back.yes_votes, 0);
    assert_eq!(back.no_votes, 0);
}
