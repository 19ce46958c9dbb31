use vstd::prelude::*;

use crate::address::{derive_poll_address, spec_derived};
use crate::codec::{
    decode_instruction, decode_record, encode_record, is_utf8, lemma_record_decode_with_padding,
    spec_decode_instruction, spec_decode_record, spec_encode_record, InstructionModel, RecordModel,
    VoteAccount, VoteInstruction, RECORD_FRAME, RECORD_SPACE,
};
use crate::errors::VoteError;
use crate::model::{keys_equal, models_of, AccountModel, AccountRecord};

verus! {

/// The account-provisioning step, on the first two accounts of the list:
/// the target to be created and the payer. `rent_minimum` is the balance
/// that exempts an account of `space` bytes from ongoing storage rent,
/// read off the host's rent schedule by the caller and passed in as plain
/// data. The step refuses a target other than the derived address, an
/// unsigned payer, a target already in use, and a payer that cannot fund
/// that minimum; otherwise it moves the minimum from the payer to the
/// target and allocates `space` zeroed bytes there, owned by the program.
pub open spec fn spec_provision(
    program: Seq<u8>,
    rent_minimum: u64,
    accs: Seq<AccountModel>,
    derived: Seq<u8>,
    space: int,
) -> Result<Seq<AccountModel>, VoteError>
    recommends
        accs.len() >= 2,
{
    let target = accs[0];
    let payer = accs[1];
    if target.key != derived {
        Err(VoteError::AddressMismatchError)
    } else if !payer.is_signer {
        Err(VoteError::MissingAuthorizationError)
    } else if target.lamports != 0 || target.data.len() != 0 {
        Err(VoteError::AllocationError)
    } else if payer.lamports < rent_minimum {
        Err(VoteError::AllocationError)
    } else {
        Ok(
            accs.update(
                0,
                AccountModel {
                    key: target.key,
                    is_signer: target.is_signer,
                    lamports: rent_minimum,
                    owner: program,
                    data: Seq::new(space as nat, |j: int| 0u8),
                },
            ).update(
                1,
                AccountModel { lamports: (payer.lamports - rent_minimum) as u64, ..payer },
            ),
        )
    }
}

/// The bytes first stored at a fresh poll account: the encoded record
/// with both tallies at zero, zero-padded to the account's capacity.
pub open spec fn spec_initial_data(topic: Seq<u8>) -> Seq<u8>
    recommends
        topic.len() + RECORD_FRAME <= RECORD_SPACE,
{
    spec_encode_record(RecordModel { topic, yes_votes: 0, no_votes: 0 }) + Seq::new(
        (RECORD_SPACE - RECORD_FRAME - topic.len()) as nat,
        |j: int| 0u8,
    )
}

/// The whole initialize transition: with the poll account, the payer and
/// the allocation-service handle supplied in that order, it derives the
/// poll address for the payer, provisions the poll account there, and
/// writes the fresh record; any failure leaves every account unchanged.
/// `rent_minimum` is the rent-exempt minimum for the account's capacity,
/// read off the host's rent schedule by the caller. When no derived
/// address exists at all (practically unreachable), no supplied account
/// can match it, and the address check fails.
pub open spec fn spec_initialize(
    program: Seq<u8>,
    rent_minimum: u64,
    accs: Seq<AccountModel>,
    topic: Seq<u8>,
) -> Result<Seq<AccountModel>, VoteError> {
    if accs.len() < 3 {
        Err(VoteError::AccountShapeError)
    } else {
        match spec_derived(program, accs[1].key) {
            None => Err(VoteError::AddressMismatchError),
            Some(d) => match spec_provision(program, rent_minimum, accs, d.0, RECORD_SPACE as int) {
                Err(e) => Err(e),
                Ok(created) => if topic.len() + RECORD_FRAME > RECORD_SPACE {
                    Err(VoteError::BufferTooSmallError)
                } else {
                    Ok(
                        created.update(
                            0,
                            AccountModel { data: spec_initial_data(topic), ..created[0] },
                        ),
                    )
                },
            },
        }
    }
}

/// The whole cast-vote transition: with the poll account and the voter
/// supplied in that order, it requires the voter's signature, decodes the
/// stored record, increments the chosen tally by exactly one, and writes
/// the record back over the front of the account's data, preserving the
/// trailing padding. A tally already at the counter's maximum refuses the
/// call, so the stored tallies never decrease; any failure leaves every
/// account unchanged.
pub open spec fn spec_cast_vote(accs: Seq<AccountModel>, vote: bool) -> Result<
    Seq<AccountModel>,
    VoteError,
> {
    if accs.len() < 2 {
        Err(VoteError::AccountShapeError)
    } else if !accs[1].is_signer {
        Err(VoteError::MissingAuthorizationError)
    } else {
        match spec_decode_record(accs[0].data) {
            None => Err(VoteError::DecodeError),
            Some(rec) => {
                if (vote && rec.yes_votes == u32::MAX) || (!vote && rec.no_votes == u32::MAX) {
                    Err(VoteError::TallyOverflowError)
                } else {
                    let new_rec = RecordModel {
                        topic: rec.topic,
                        yes_votes: if vote {
                            (rec.yes_votes + 1) as u32
                        } else {
                            rec.yes_votes
                        },
                        no_votes: if vote {
                            rec.no_votes
                        } else {
                            (rec.no_votes + 1) as u32
                        },
                    };
                    Ok(
                        accs.update(
                            0,
                            AccountModel {
                                data: spec_encode_record(new_rec) + accs[0].data.skip(
                                    rec.topic.len() + RECORD_FRAME,
                                ),
                                ..accs[0]
                            },
                        ),
                    )
                }
            },
        }
    }
}

/// The whole dispatch transition: decode the payload, then apply the
/// transition of the instruction it names.
pub open spec fn spec_process(
    program: Seq<u8>,
    rent_minimum: u64,
    accs: Seq<AccountModel>,
    payload: Seq<u8>,
) -> Result<Seq<AccountModel>, VoteError> {
    match spec_decode_instruction(payload) {
        None => Err(VoteError::DecodeError),
        Some(InstructionModel::InitializeVote { topic }) => spec_initialize(
            program,
            rent_minimum,
            accs,
            topic,
        ),
        Some(InstructionModel::CastVote { vote }) => spec_cast_vote(accs, vote),
    }
}

/// Opens a poll: derives the poll address for the payer, provisions the
/// poll account there, and stores a fresh record with the given topic and
/// both tallies at zero. `rent_minimum` is the rent-exempt minimum for
/// the account's capacity, read off the host's rent schedule by the
/// caller. The accounts are, in order: the poll account to be created,
/// the payer (a signer), and the allocation-service handle. On failure no
/// account changes.
pub fn initialize_vote(
    program_id: &[u8; 32],
    rent_minimum: u64,
    accounts: &mut Vec<AccountRecord>,
    topic: Vec<u8>,
) -> (r: Result<(), VoteError>)
    ensures
        ({
            let res = spec_initialize(program_id@, rent_minimum, models_of(old(accounts)@), topic@);
            match r {
                Ok(()) => res == Ok::<Seq<AccountModel>, VoteError>(models_of(final(accounts)@)),
                Err(e) => res == Err::<Seq<AccountModel>, VoteError>(e) && final(accounts)@ == old(
                    accounts,
                )@,
            }
        }),
{
    if accounts.len() < 3 {
        return Err(VoteError::AccountShapeError);
    }
    let payer_key = accounts[1].key;
    let derived = match derive_poll_address(program_id, &payer_key) {
        None => {
            return Err(VoteError::AddressMismatchError);
        },
        Some(d) => d,
    };
    let target_key = accounts[0].key;
    if !keys_equal(&target_key, &derived.0) {
        return Err(VoteError::AddressMismatchError);
    }
    if !accounts[1].is_signer {
        return Err(VoteError::MissingAuthorizationError);
    }
    let target_untouched = accounts[0].lamports == 0 && accounts[0].data.len() == 0;
    if !target_untouched {
        return Err(VoteError::AllocationError);
    }
    let payer_lamports = accounts[1].lamports;
    if payer_lamports < rent_minimum {
        return Err(VoteError::AllocationError);
    }
    if topic.len() > RECORD_SPACE - RECORD_FRAME {
        return Err(VoteError::BufferTooSmallError);
    }
    let rec = VoteAccount { topic, yes_votes: 0, no_votes: 0 };
    let mut data = encode_record(&rec);
    while data.len() < RECORD_SPACE
        invariant
            rec.topic@.len() + RECORD_FRAME <= RECORD_SPACE,
            data@.len() >= rec.topic@.len() + RECORD_FRAME,
            data@.len() <= RECORD_SPACE,
            data@.subrange(0, rec.topic@.len() + RECORD_FRAME as int) == spec_encode_record(rec@),
            forall|j: int| rec.topic@.len() + RECORD_FRAME <= j < data@.len() ==> data@[j] == 0,
        decreases RECORD_SPACE - data@.len(),
    {
        let ghost pre = data@;
        data.push(0);
        proof {
            assert(data@.subrange(0, rec.topic@.len() + RECORD_FRAME as int) =~= pre.subrange(
                0,
                rec.topic@.len() + RECORD_FRAME as int,
            ));
        }
    }
    proof {
        assert(data@ =~= spec_initial_data(rec.topic@));
    }
    let target = &mut accounts[0];
    target.lamports = rent_minimum;
    target.owner = *program_id;
    target.data = data;
    let payer = &mut accounts[1];
    payer.lamports = payer_lamports - rent_minimum;
    proof {
        let s1 = old(accounts)@;
        let s2 = accounts@;
        let m1 = models_of(s1);
        let created = spec_provision(
            program_id@,
            rent_minimum,
            m1,
            derived.0@,
            RECORD_SPACE as int,
        ).unwrap();
        let expected = created.update(
            0,
            AccountModel { data: spec_initial_data(rec.topic@), ..created[0] },
        );
        assert(models_of(s2).len() == expected.len());
        assert forall|i: int| 0 <= i < s2.len() implies models_of(s2)[i] == expected[i] by {
            if i == 0 {
                assert(models_of(s2)[i] =~= expected[i]);
            } else if i == 1 {
                assert(models_of(s2)[i] =~= expected[i]);
            } else {
                assert(models_of(s2)[i] == s2[i]@);
                assert(expected[i] == s1[i]@);
            }
        }
        assert(models_of(s2) =~= expected);
    }
    Ok(())
}

/// Casts one vote: requires the voter's signature, decodes the stored
/// record, increments the chosen tally by exactly one, and writes the
/// record back, preserving the account's trailing padding. A tally
/// already at the counter's maximum refuses the call, so the stored
/// tallies never decrease. The accounts are, in order: the poll account
/// and the voter (a signer). On failure no account changes.
pub fn cast_vote(accounts: &mut Vec<AccountRecord>, vote: bool) -> (r: Result<(), VoteError>)
    ensures
        ({
            let res = spec_cast_vote(models_of(old(accounts)@), vote);
            match r {
                Ok(()) => res == Ok::<Seq<AccountModel>, VoteError>(models_of(final(accounts)@)),
                Err(e) => res == Err::<Seq<AccountModel>, VoteError>(e) && final(accounts)@ == old(
                    accounts,
                )@,
            }
        }),
{
    if accounts.len() < 2 {
        return Err(VoteError::AccountShapeError);
    }
    if !accounts[1].is_signer {
        return Err(VoteError::MissingAuthorizationError);
    }
    let rec_opt = {
        let t = &accounts[0];
        decode_record(&t.data)
    };
    let rec = match rec_opt {
        None => {
            return Err(VoteError::DecodeError);
        },
        Some(rec) => rec,
    };
    if vote && rec.yes_votes == u32::MAX {
        return Err(VoteError::TallyOverflowError);
    }
    if !vote && rec.no_votes == u32::MAX {
        return Err(VoteError::TallyOverflowError);
    }
    let new_rec = VoteAccount {
        yes_votes: if vote {
            rec.yes_votes + 1
        } else {
            rec.yes_votes
        },
        no_votes: if vote {
            rec.no_votes
        } else {
            rec.no_votes + 1
        },
        topic: rec.topic,
    };
    let mut newdata = encode_record(&new_rec);
    let start = newdata.len();
    let data_len = accounts[0].data.len();
    let mut j: usize = start;
    while j < data_len
        invariant
            start <= j <= data_len,
            accounts@ == old(accounts)@,
            0 < accounts@.len(),
            data_len == accounts@[0]@.data.len(),
            start as int == spec_encode_record(new_rec@).len(),
            newdata@ == spec_encode_record(new_rec@) + accounts@[0]@.data.subrange(
                start as int,
                j as int,
            ),
        decreases data_len - j,
    {
        let byte = {
            let t = &accounts[0];
            t.data[j]
        };
        newdata.push(byte);
        proof {
            assert(newdata@ =~= spec_encode_record(new_rec@) + accounts@[0]@.data.subrange(
                start as int,
                j as int + 1,
            ));
        }
        j = j + 1;
    }
    let target = &mut accounts[0];
    target.data = newdata;
    proof {
        let s1 = old(accounts)@;
        let s2 = accounts@;
        let m1 = models_of(s1);
        let spec_rec = spec_decode_record(m1[0].data).unwrap();
        assert(spec_rec == rec@);
        let expected = m1.update(
            0,
            AccountModel {
                data: spec_encode_record(new_rec@) + m1[0].data.skip(
                    spec_rec.topic.len() + RECORD_FRAME,
                ),
                ..m1[0]
            },
        );
        assert(s1[0]@.data.subrange(start as int, data_len as int) =~= m1[0].data.skip(
            spec_rec.topic.len() + RECORD_FRAME,
        ));
        assert(models_of(s2).len() == expected.len());
        assert forall|i: int| 0 <= i < s2.len() implies models_of(s2)[i] == expected[i] by {
            if i == 0 {
                assert(models_of(s2)[i] =~= expected[i]);
            } else {
                assert(models_of(s2)[i] == s2[i]@);
                assert(expected[i] == s1[i]@);
            }
        }
        assert(models_of(s2) =~= expected);
    }
    Ok(())
}

/// The program's entry transition: decodes the payload into an
/// instruction and applies the transition it names to the account list.
/// On failure no account changes.
pub fn process_instruction(
    program_id: &[u8; 32],
    rent_minimum: u64,
    accounts: &mut Vec<AccountRecord>,
    instruction_data: &Vec<u8>,
) -> (r: Result<(), VoteError>)
    ensures
        ({
            let res = spec_process(
                program_id@,
                rent_minimum,
                models_of(old(accounts)@),
                instruction_data@,
            );
            match r {
                Ok(()) => res == Ok::<Seq<AccountModel>, VoteError>(models_of(final(accounts)@)),
                Err(e) => res == Err::<Seq<AccountModel>, VoteError>(e) && final(accounts)@ == old(
                    accounts,
                )@,
            }
        }),
{
    let instr = match decode_instruction(instruction_data) {
        None => {
            return Err(VoteError::DecodeError);
        },
        Some(i) => i,
    };
    match instr {
        VoteInstruction::InitializeVote { topic } => initialize_vote(
            program_id,
            rent_minimum,
            accounts,
            topic,
        ),
        VoteInstruction::CastVote { vote } => cast_vote(accounts, vote),
    }
}

/// A freshly opened poll stores exactly the record it was opened with:
/// after a successful initialize, the poll account's bytes decode to the
/// given topic with both tallies at zero, for any topic that is text.
pub proof fn lemma_initialize_stores_fresh_record(
    program: Seq<u8>,
    rent_minimum: u64,
    accs: Seq<AccountModel>,
    topic: Seq<u8>,
)
    ensures
        is_utf8(topic) ==> (spec_initialize(program, rent_minimum, accs, topic) matches Ok(next)
            ==> spec_decode_record(next[0].data) == Some(
            RecordModel { topic, yes_votes: 0, no_votes: 0 },
        )),
{
    if is_utf8(topic) && spec_initialize(program, rent_minimum, accs, topic) is Ok {
        let next = spec_initialize(program, rent_minimum, accs, topic).unwrap();
        let fresh = RecordModel { topic, yes_votes: 0, no_votes: 0 };
        let pad = Seq::new((RECORD_SPACE - RECORD_FRAME - topic.len()) as nat, |j: int| 0u8);
        assert(next[0].data == spec_encode_record(fresh) + pad);
        lemma_record_decode_with_padding(fresh, pad);
    }
}

/// A cast vote changes the stored record by exactly one tally: after a
/// successful cast, the poll account's bytes decode to the old record
/// with the chosen tally exactly one higher. So the topic never changes,
/// neither tally ever decreases, and their sum grows by exactly one per
/// successful cast.
pub proof fn lemma_cast_vote_increments(accs: Seq<AccountModel>, vote: bool)
    ensures
        spec_cast_vote(accs, vote) matches Ok(next) ==> (spec_decode_record(accs[0].data)
            matches Some(rec) && spec_decode_record(next[0].data) == Some(
            RecordModel {
                topic: rec.topic,
                yes_votes: if vote {
                    (rec.yes_votes + 1) as u32
                } else {
                    rec.yes_votes
                },
                no_votes: if vote {
                    rec.no_votes
                } else {
                    (rec.no_votes + 1) as u32
                },
            },
        )),
{
    if spec_cast_vote(accs, vote) is Ok {
        let rec = spec_decode_record(accs[0].data).unwrap();
        let new_rec = RecordModel {
            topic: rec.topic,
            yes_votes: if vote {
                (rec.yes_votes + 1) as u32
            } else {
                rec.yes_votes
            },
            no_votes: if vote {
                rec.no_votes
            } else {
                (rec.no_votes + 1) as u32
            },
        };
        let suffix = accs[0].data.skip(rec.topic.len() + RECORD_FRAME);
        lemma_record_decode_with_padding(new_rec, suffix);
    }
}

/// Opening a poll twice fails: after a successful initialize, a second
/// initialize against the resulting accounts is refused by the
/// allocation step, whatever topic it carries and whatever rent minimum
/// it is quoted, and so changes nothing.
pub proof fn lemma_initialize_twice(
    program: Seq<u8>,
    rent_minimum1: u64,
    rent_minimum2: u64,
    accs: Seq<AccountModel>,
    topic1: Seq<u8>,
    topic2: Seq<u8>,
)
    ensures
        spec_initialize(program, rent_minimum1, accs, topic1) matches Ok(next) ==> spec_initialize(
            program,
            rent_minimum2,
            next,
            topic2,
        ) == Err::<Seq<AccountModel>, VoteError>(VoteError::AllocationError),
{
    if spec_initialize(program, rent_minimum1, accs, topic1) is Ok {
        let next = spec_initialize(program, rent_minimum1, accs, topic1).unwrap();
        assert(next.len() == accs.len());
        assert(next[0].key == accs[0].key);
        assert(next[1].key == accs[1].key);
        assert(next[1].is_signer == accs[1].is_signer);
        assert(next[0].data.len() == RECORD_SPACE);
    }
}

} // verus!
