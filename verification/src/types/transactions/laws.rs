//! What holds of the byte layout of payloads: decoding undoes encoding, and
//! no unknown discriminant is ever decoded.

use vstd::prelude::*;
use crate::types::keys::{
    enc_credential_keys, lemma_parse_credential_keys,
};
use crate::types::transactions::header::decode_payload;
use crate::types::transactions::payload::{
    credential_id_encoder, credential_id_parser, enc_baker_keys, enc_credential_ids,
    enc_new_credentials, enc_payload, enc_payload_body, enc_release, enc_schedule, is_payload_tag,
    new_credential_encoder, new_credential_parser, parse_add_baker, parse_baker_keys,
    parse_credential_ids, parse_deploy_module, parse_encrypted_transfer,
    parse_encrypted_transfer_with_memo, parse_init_contract, parse_new_credentials, parse_payload,
    parse_payload_body, parse_release, parse_schedule, parse_transfer, parse_transfer_with_memo,
    parse_transfer_with_schedule, parse_transfer_with_schedule_and_memo, parse_update_contract,
    parse_update_credential_keys, parse_update_credentials, payload_tag, release_encoder,
    release_parser, BakerKeysView, PayloadView,
};
use crate::wire::{
    be_u32, be_u64, enc_bool, enc_bytes16, enc_bytes32, enc_many, entry_key, has_at, increasing,
    lemma_be_lengths, lemma_has_at_concat, lemma_has_at_whole, lemma_parse_bool,
    lemma_parse_bytes16, lemma_parse_bytes32, lemma_parse_fixed, lemma_parse_increasing,
    lemma_parse_many, lemma_parse_u32, lemma_parse_u64, lemma_parse_u8, lemma_u32_round_trip,
    lemma_u64_round_trip, ParseError, ParseErrorKind,
};

verus! {

/// Baker keys of the right widths are parsed from wherever the input holds
/// their encoding.
pub proof fn lemma_parse_baker_keys(s: Seq<u8>, at: int, k: BakerKeysView)
    requires
        k.wf(),
        has_at(s, at, enc_baker_keys(k)),
    ensures
        parse_baker_keys(s, at) == Ok::<_, ParseError>((k, at + 352)),
        enc_baker_keys(k).len() == 352,
{
    let e1 = k.election_verify_key;
    let e2 = e1 + k.signature_verify_key;
    let e3 = e2 + k.aggregation_verify_key;
    let e4 = e3 + k.proof_sig;
    let e5 = e4 + k.proof_election;
    lemma_has_at_concat(s, at, e5, k.proof_aggregation);
    lemma_has_at_concat(s, at, e4, k.proof_election);
    lemma_has_at_concat(s, at, e3, k.proof_sig);
    lemma_has_at_concat(s, at, e2, k.aggregation_verify_key);
    lemma_has_at_concat(s, at, e1, k.signature_verify_key);
    lemma_parse_fixed(s, at, k.election_verify_key);
    lemma_parse_fixed(s, at + 32, k.signature_verify_key);
    lemma_parse_fixed(s, at + 64, k.aggregation_verify_key);
    lemma_parse_fixed(s, at + 160, k.proof_sig);
    lemma_parse_fixed(s, at + 224, k.proof_election);
    lemma_parse_fixed(s, at + 288, k.proof_aggregation);
}

/// A release is parsed from wherever the input holds its encoding.
pub proof fn lemma_parse_release(s: Seq<u8>, at: int, r: (u64, u64))
    requires
        has_at(s, at, enc_release(r)),
    ensures
        parse_release(s, at) == Ok::<_, ParseError>((r, at + 16)),
        enc_release(r).len() == 16,
{
    lemma_be_lengths();
    lemma_has_at_concat(s, at, be_u64(r.0), be_u64(r.1));
    lemma_parse_u64(s, at, r.0);
    lemma_parse_u64(s, at + 8, r.1);
}

/// A schedule of at most 255 releases is parsed from wherever the input
/// holds its encoding.
pub proof fn lemma_parse_schedule(s: Seq<u8>, at: int, schedule: Seq<(u64, u64)>)
    requires
        schedule.len() <= 255,
        has_at(s, at, enc_schedule(schedule)),
    ensures
        parse_schedule(s, at) == Ok::<_, ParseError>(
            (schedule, at + enc_schedule(schedule).len()),
        ),
{
    let body = enc_many(schedule, release_encoder());
    lemma_has_at_concat(s, at, seq![schedule.len() as u8], body);
    lemma_parse_u8(s, at, schedule.len() as u8);
    assert forall|a: int, i: int|
        0 <= i < schedule.len() && #[trigger] has_at(
            s,
            a,
            release_encoder()(schedule[i]),
        ) implies release_parser()(s, a, i) == Ok::<_, ParseError>(
        (schedule[i], a + release_encoder()(schedule[i]).len()),
    ) by {
        lemma_parse_release(s, a, schedule[i]);
    }
    lemma_parse_many(s, at + 1, schedule, release_encoder(), release_parser());
}

/// At most 255 credentials, listed by strictly increasing index, are parsed
/// from wherever the input holds their encoding, when the parser is told
/// their sizes.
pub proof fn lemma_parse_new_credentials(
    s: Seq<u8>,
    at: int,
    creds: Seq<(u8, Seq<u8>)>,
    sizes: Seq<usize>,
)
    requires
        creds.len() <= 255,
        increasing(creds, entry_key()),
        sizes.len() == creds.len(),
        forall|i: int| 0 <= i < creds.len() ==> (#[trigger] creds[i]).1.len() == sizes[i],
        has_at(s, at, enc_new_credentials(creds)),
    ensures
        parse_new_credentials(s, at, sizes) == Ok::<_, ParseError>(
            (creds, at + enc_new_credentials(creds).len()),
        ),
{
    let body = enc_many(creds, new_credential_encoder());
    lemma_has_at_concat(s, at, seq![creds.len() as u8], body);
    lemma_parse_u8(s, at, creds.len() as u8);
    assert forall|a: int, i: int|
        0 <= i < creds.len() && #[trigger] has_at(
            s,
            a,
            new_credential_encoder()(creds[i]),
        ) implies new_credential_parser(sizes)(s, a, i) == Ok::<_, ParseError>(
        (creds[i], a + new_credential_encoder()(creds[i]).len()),
    ) by {
        let e = creds[i];
        lemma_has_at_concat(s, a, seq![e.0], e.1);
        lemma_parse_u8(s, a, e.0);
        lemma_parse_fixed(s, a + 1, e.1);
    }
    lemma_parse_increasing(
        s,
        at + 1,
        creds,
        new_credential_encoder(),
        new_credential_parser(sizes),
        entry_key(),
    );
}

/// At most 255 credential ids of 48 bytes each are parsed from wherever the
/// input holds their encoding.
pub proof fn lemma_parse_credential_ids(s: Seq<u8>, at: int, ids: Seq<Seq<u8>>)
    requires
        ids.len() <= 255,
        forall|i: int| 0 <= i < ids.len() ==> (#[trigger] ids[i]).len() == 48,
        has_at(s, at, enc_credential_ids(ids)),
    ensures
        parse_credential_ids(s, at) == Ok::<_, ParseError>(
            (ids, at + enc_credential_ids(ids).len()),
        ),
{
    let body = enc_many(ids, credential_id_encoder());
    lemma_has_at_concat(s, at, seq![ids.len() as u8], body);
    lemma_parse_u8(s, at, ids.len() as u8);
    assert forall|a: int, i: int|
        0 <= i < ids.len() && #[trigger] has_at(
            s,
            a,
            credential_id_encoder()(ids[i]),
        ) implies credential_id_parser()(s, a, i) == Ok::<_, ParseError>(
        (ids[i], a + credential_id_encoder()(ids[i]).len()),
    ) by {
        lemma_parse_fixed(s, a, ids[i]);
    }
    lemma_parse_many(s, at + 1, ids, credential_id_encoder(), credential_id_parser());
}

/// The fields of this kind of payload are parsed from an input that holds
/// them at `at`.
proof fn lemma_body_deploy_module(s: Seq<u8>, at: int, p: PayloadView)
    requires
        p is DeployModule,
        p.wf(),
        has_at(s, at, enc_payload_body(p)),
    ensures
        parse_deploy_module(s, at) == Ok::<_, ParseError>((p, at + enc_payload_body(p).len())),
{
    lemma_be_lengths();
    match p {
        PayloadView::DeployModule { version, source } => {
            lemma_u32_round_trip(version);
            lemma_has_at_concat(s, at, be_u32(version), enc_bytes32(source));
            lemma_parse_u32(s, at, version);
            lemma_parse_bytes32(s, at + 4, source, 65536);
        },
        _ => {},
    }
}

/// The fields of this kind of payload are parsed from an input that holds
/// them at `at`.
proof fn lemma_body_init_contract(s: Seq<u8>, at: int, p: PayloadView)
    requires
        p is InitContract,
        p.wf(),
        has_at(s, at, enc_payload_body(p)),
    ensures
        parse_init_contract(s, at) == Ok::<_, ParseError>((p, at + enc_payload_body(p).len())),
{
    lemma_be_lengths();
    match p {
        PayloadView::InitContract { amount, mod_ref, init_name, param } => {
            lemma_u64_round_trip(amount);
            let e1 = be_u64(amount);
            let e2 = e1 + mod_ref;
            let e3 = e2 + enc_bytes16(init_name);
            lemma_has_at_concat(s, at, e3, enc_bytes16(param));
            lemma_has_at_concat(s, at, e2, enc_bytes16(init_name));
            lemma_has_at_concat(s, at, e1, mod_ref);
            lemma_parse_u64(s, at, amount);
            lemma_parse_fixed(s, at + 8, mod_ref);
            lemma_parse_bytes16(s, at + 40, init_name, 65535);
            lemma_parse_bytes16(s, at + 42 + init_name.len(), param, 1024);
        },
        _ => {},
    }
}

/// The fields of this kind of payload are parsed from an input that holds
/// them at `at`.
proof fn lemma_body_update(s: Seq<u8>, at: int, p: PayloadView)
    requires
        p is Update,
        p.wf(),
        has_at(s, at, enc_payload_body(p)),
    ensures
        parse_update_contract(s, at) == Ok::<_, ParseError>((p, at + enc_payload_body(p).len())),
{
    lemma_be_lengths();
    match p {
        PayloadView::Update { amount, index, subindex, receive_name, message } => {
            lemma_u64_round_trip(amount);
            lemma_u64_round_trip(index);
            lemma_u64_round_trip(subindex);
            let e1 = be_u64(amount);
            let e2 = e1 + be_u64(index);
            let e3 = e2 + be_u64(subindex);
            let e4 = e3 + enc_bytes16(receive_name);
            lemma_has_at_concat(s, at, e4, enc_bytes16(message));
            lemma_has_at_concat(s, at, e3, enc_bytes16(receive_name));
            lemma_has_at_concat(s, at, e2, be_u64(subindex));
            lemma_has_at_concat(s, at, e1, be_u64(index));
            lemma_parse_u64(s, at, amount);
            lemma_parse_u64(s, at + 8, index);
            lemma_parse_u64(s, at + 16, subindex);
            lemma_parse_bytes16(s, at + 24, receive_name, 65535);
            lemma_parse_bytes16(s, at + 26 + receive_name.len(), message, 1024);
        },
        _ => {},
    }
}

/// The fields of this kind of payload are parsed from an input that holds
/// them at `at`.
proof fn lemma_body_transfer(s: Seq<u8>, at: int, p: PayloadView)
    requires
        p is Transfer,
        p.wf(),
        has_at(s, at, enc_payload_body(p)),
    ensures
        parse_transfer(s, at) == Ok::<_, ParseError>((p, at + enc_payload_body(p).len())),
{
    lemma_be_lengths();
    match p {
        PayloadView::Transfer { to_address, amount } => {
            lemma_has_at_concat(s, at, to_address, be_u64(amount));
            lemma_parse_fixed(s, at, to_address);
            lemma_parse_u64(s, at + 32, amount);
        },
        _ => {},
    }
}

/// The fields of this kind of payload are parsed from an input that holds
/// them at `at`.
proof fn lemma_body_add_baker(s: Seq<u8>, at: int, p: PayloadView)
    requires
        p is AddBaker,
        p.wf(),
        has_at(s, at, enc_payload_body(p)),
    ensures
        parse_add_baker(s, at) == Ok::<_, ParseError>((p, at + enc_payload_body(p).len())),
{
    lemma_be_lengths();
    match p {
        PayloadView::AddBaker { keys, baking_stake, restake_earnings } => {
            lemma_u64_round_trip(baking_stake);
            let e1 = enc_baker_keys(keys);
            let e2 = e1 + be_u64(baking_stake);
            lemma_has_at_concat(s, at, e2, enc_bool(restake_earnings));
            lemma_has_at_concat(s, at, e1, be_u64(baking_stake));
            lemma_parse_baker_keys(s, at, keys);
            lemma_parse_u64(s, at + 352, baking_stake);
            lemma_parse_bool(s, at + 360, restake_earnings);
        },
        _ => {},
    }
}

/// The fields of this kind of payload are parsed from an input that holds
/// them at `at`.
proof fn lemma_body_update_credential_keys(s: Seq<u8>, at: int, p: PayloadView)
    requires
        p is UpdateCredentialKeys,
        p.wf(),
        has_at(s, at, enc_payload_body(p)),
    ensures
        parse_update_credential_keys(s, at) == Ok::<_, ParseError>((p, at + enc_payload_body(p).len())),
{
    lemma_be_lengths();
    match p {
        PayloadView::UpdateCredentialKeys { cred_id, keys } => {
            lemma_has_at_concat(s, at, cred_id, enc_credential_keys(keys));
            lemma_parse_fixed(s, at, cred_id);
            lemma_parse_credential_keys(s, at + 48, keys);
        },
        _ => {},
    }
}

/// The fields of this kind of payload are parsed from an input that holds
/// them at `at`.
proof fn lemma_body_encrypted_amount_transfer(s: Seq<u8>, at: int, p: PayloadView)
    requires
        p is EncryptedAmountTransfer,
        p.wf(),
        has_at(s, at, enc_payload_body(p)),
    ensures
        parse_encrypted_transfer(s, at, p.carried_sizes()) == Ok::<_, ParseError>((p, at + enc_payload_body(p).len())),
{
    lemma_be_lengths();
    match p {
        PayloadView::EncryptedAmountTransfer { to, data } => {
            lemma_has_at_concat(s, at, to, data);
            lemma_parse_fixed(s, at, to);
            lemma_parse_fixed(s, at + 32, data);
        },
        _ => {},
    }
}

/// The fields of this kind of payload are parsed from an input that holds
/// them at `at`.
proof fn lemma_body_transfer_with_schedule(s: Seq<u8>, at: int, p: PayloadView)
    requires
        p is TransferWithSchedule,
        p.wf(),
        has_at(s, at, enc_payload_body(p)),
    ensures
        parse_transfer_with_schedule(s, at) == Ok::<_, ParseError>((p, at + enc_payload_body(p).len())),
{
    lemma_be_lengths();
    match p {
        PayloadView::TransferWithSchedule { to, schedule } => {
            lemma_has_at_concat(s, at, to, enc_schedule(schedule));
            lemma_parse_fixed(s, at, to);
            lemma_parse_schedule(s, at + 32, schedule);
        },
        _ => {},
    }
}

/// The fields of this kind of payload are parsed from an input that holds
/// them at `at`.
proof fn lemma_body_update_credentials(s: Seq<u8>, at: int, p: PayloadView)
    requires
        p is UpdateCredentials,
        p.wf(),
        has_at(s, at, enc_payload_body(p)),
    ensures
        parse_update_credentials(s, at, p.carried_sizes()) == Ok::<_, ParseError>((p, at + enc_payload_body(p).len())),
{
    lemma_be_lengths();
    match p {
        PayloadView::UpdateCredentials { new_cred_infos, remove_cred_ids, new_threshold } => {
            let e1 = enc_new_credentials(new_cred_infos);
            let e2 = e1 + enc_credential_ids(remove_cred_ids);
            lemma_has_at_concat(s, at, e2, seq![new_threshold]);
            lemma_has_at_concat(s, at, e1, enc_credential_ids(remove_cred_ids));
            lemma_parse_new_credentials(s, at, new_cred_infos, p.carried_sizes());
            lemma_parse_credential_ids(s, at + e1.len(), remove_cred_ids);
            lemma_parse_u8(s, at + e2.len(), new_threshold);
        },
        _ => {},
    }
}

/// The fields of this kind of payload are parsed from an input that holds
/// them at `at`.
proof fn lemma_body_transfer_with_memo(s: Seq<u8>, at: int, p: PayloadView)
    requires
        p is TransferWithMemo,
        p.wf(),
        has_at(s, at, enc_payload_body(p)),
    ensures
        parse_transfer_with_memo(s, at) == Ok::<_, ParseError>((p, at + enc_payload_body(p).len())),
{
    lemma_be_lengths();
    match p {
        PayloadView::TransferWithMemo { to_address, memo, amount } => {
            lemma_u64_round_trip(amount);
            let e1 = to_address + enc_bytes16(memo);
            lemma_has_at_concat(s, at, e1, be_u64(amount));
            lemma_has_at_concat(s, at, to_address, enc_bytes16(memo));
            lemma_parse_fixed(s, at, to_address);
            lemma_parse_bytes16(s, at + 32, memo, 256);
            lemma_parse_u64(s, at + 34 + memo.len(), amount);
        },
        _ => {},
    }
}

/// The fields of this kind of payload are parsed from an input that holds
/// them at `at`.
proof fn lemma_body_encrypted_amount_transfer_with_memo(s: Seq<u8>, at: int, p: PayloadView)
    requires
        p is EncryptedAmountTransferWithMemo,
        p.wf(),
        has_at(s, at, enc_payload_body(p)),
    ensures
        parse_encrypted_transfer_with_memo(s, at, p.carried_sizes()) == Ok::<_, ParseError>((p, at + enc_payload_body(p).len())),
{
    lemma_be_lengths();
    match p {
        PayloadView::EncryptedAmountTransferWithMemo { to, memo, data } => {
            let e1 = to + enc_bytes16(memo);
            lemma_has_at_concat(s, at, e1, data);
            lemma_has_at_concat(s, at, to, enc_bytes16(memo));
            lemma_parse_fixed(s, at, to);
            lemma_parse_bytes16(s, at + 32, memo, 256);
            lemma_parse_fixed(s, at + 34 + memo.len(), data);
        },
        _ => {},
    }
}

/// The fields of this kind of payload are parsed from an input that holds
/// them at `at`.
proof fn lemma_body_transfer_with_schedule_and_memo(s: Seq<u8>, at: int, p: PayloadView)
    requires
        p is TransferWithScheduleAndMemo,
        p.wf(),
        has_at(s, at, enc_payload_body(p)),
    ensures
        parse_transfer_with_schedule_and_memo(s, at) == Ok::<_, ParseError>((p, at + enc_payload_body(p).len())),
{
    lemma_be_lengths();
    match p {
        PayloadView::TransferWithScheduleAndMemo { to, memo, schedule } => {
            let e1 = to + enc_bytes16(memo);
            lemma_has_at_concat(s, at, e1, enc_schedule(schedule));
            lemma_has_at_concat(s, at, to, enc_bytes16(memo));
            lemma_parse_fixed(s, at, to);
            lemma_parse_bytes16(s, at + 32, memo, 256);
            lemma_parse_schedule(s, at + 34 + memo.len(), schedule);
        },
        _ => {},
    }
}

/// The fields of a payload of one of the kinds with a single field, or with
/// none, are parsed from wherever the input holds them.
proof fn lemma_body_short(s: Seq<u8>, at: int, p: PayloadView)
    requires
        p is RemoveBaker || p is UpdateBakerStake || p is UpdateBakerRestakeEarnings
            || p is UpdateBakerKeys || p is TransferToEncrypted || p is TransferToPublic
            || p is RegisterData,
        p.wf(),
        has_at(s, at, enc_payload_body(p)),
    ensures
        parse_payload_body(s, payload_tag(p), at, p.carried_sizes()) == Ok::<_, ParseError>(
            (p, at + enc_payload_body(p).len()),
        ),
{
    lemma_be_lengths();
    match p {
        PayloadView::RemoveBaker => {},
        PayloadView::UpdateBakerStake { stake } => {
            lemma_parse_u64(s, at, stake);
        },
        PayloadView::UpdateBakerRestakeEarnings { restake_earnings } => {
            lemma_parse_bool(s, at, restake_earnings);
        },
        PayloadView::UpdateBakerKeys { keys } => {
            lemma_parse_baker_keys(s, at, keys);
        },
        PayloadView::TransferToEncrypted { amount } => {
            lemma_parse_u64(s, at, amount);
        },
        PayloadView::TransferToPublic { data } => {
            lemma_parse_fixed(s, at, data);
        },
        PayloadView::RegisterData { data } => {
            lemma_parse_bytes16(s, at, data, 256);
        },
        _ => {},
    }
}

/// The fields of a payload within the limits of the protocol are parsed
/// from wherever the input holds them, whatever follows them.
pub proof fn lemma_parse_payload_body(s: Seq<u8>, at: int, p: PayloadView)
    requires
        p.wf(),
        has_at(s, at, enc_payload_body(p)),
    ensures
        parse_payload_body(s, payload_tag(p), at, p.carried_sizes()) == Ok::<_, ParseError>(
            (p, at + enc_payload_body(p).len()),
        ),
{
    match p {
        PayloadView::DeployModule { .. } => lemma_body_deploy_module(s, at, p),
        PayloadView::InitContract { .. } => lemma_body_init_contract(s, at, p),
        PayloadView::Update { .. } => lemma_body_update(s, at, p),
        PayloadView::Transfer { .. } => lemma_body_transfer(s, at, p),
        PayloadView::AddBaker { .. } => lemma_body_add_baker(s, at, p),
        PayloadView::UpdateCredentialKeys { .. } => lemma_body_update_credential_keys(s, at, p),
        PayloadView::EncryptedAmountTransfer { .. } => lemma_body_encrypted_amount_transfer(
            s,
            at,
            p,
        ),
        PayloadView::TransferWithSchedule { .. } => lemma_body_transfer_with_schedule(s, at, p),
        PayloadView::UpdateCredentials { .. } => lemma_body_update_credentials(s, at, p),
        PayloadView::TransferWithMemo { .. } => lemma_body_transfer_with_memo(s, at, p),
        PayloadView::EncryptedAmountTransferWithMemo {
            ..
        } => lemma_body_encrypted_amount_transfer_with_memo(s, at, p),
        PayloadView::TransferWithScheduleAndMemo {
            ..
        } => lemma_body_transfer_with_schedule_and_memo(s, at, p),
        _ => lemma_body_short(s, at, p),
    }
}

/// A payload within the limits of the protocol is parsed from every input
/// that starts with its encoding, whatever follows: the result is the
/// payload, and what was taken is the encoding and no more.
pub proof fn lemma_parse_payload(s: Seq<u8>, p: PayloadView)
    requires
        p.wf(),
        has_at(s, 0, enc_payload(p)),
    ensures
        parse_payload(s, p.carried_sizes()) == Ok::<_, ParseError>(
            (p, enc_payload(p).len() as int),
        ),
{
    lemma_has_at_concat(s, 0, seq![payload_tag(p)], enc_payload_body(p));
    lemma_parse_u8(s, 0, payload_tag(p));
    lemma_parse_payload_body(s, 1, p);
}

/// Decoding undoes encoding: for every payload within the limits of the
/// protocol, of whatever kind, parsing its encoding gives the payload back
/// and takes the whole encoding. The parser is handed the sizes of the parts
/// that the payload carries as they are.
pub proof fn payload_round_trip(p: PayloadView)
    requires
        p.wf(),
    ensures
        parse_payload(enc_payload(p), p.carried_sizes()) == Ok::<_, ParseError>(
            (p, enc_payload(p).len() as int),
        ),
{
    lemma_has_at_whole(enc_payload(p));
    lemma_parse_payload(enc_payload(p), p);
}

/// Bytes behind a payload are left unread: parsing the encoding of a
/// payload within the limits of the protocol followed by any bytes gives the
/// payload and takes its encoding, no more and no less.
pub proof fn payload_round_trip_before_more(p: PayloadView, rest: Seq<u8>)
    requires
        p.wf(),
    ensures
        parse_payload(enc_payload(p) + rest, p.carried_sizes()) == Ok::<_, ParseError>(
            (p, enc_payload(p).len() as int),
        ),
{
    let s = enc_payload(p) + rest;
    assert(s.subrange(0, enc_payload(p).len() as int) =~= enc_payload(p));
    lemma_parse_payload(s, p);
}

/// Decoding a whole encoded payload undoes encoding: the encoding of a
/// payload within the limits of the protocol decodes to the payload.
pub proof fn encoded_payload_round_trip(p: PayloadView)
    requires
        p.wf(),
    ensures
        decode_payload(enc_payload(p), p.carried_sizes()) == Ok::<_, ParseError>(p),
{
    payload_round_trip(p);
}

/// Bytes that are left over are refused: where the bytes that are declared
/// to hold a payload hold the encoding of one and then some more, decoding
/// them is the error that says how many are left over, and at which offset.
pub proof fn leftover_bytes_are_refused(p: PayloadView, rest: Seq<u8>)
    requires
        p.wf(),
        rest.len() > 0,
    ensures
        decode_payload(enc_payload(p) + rest, p.carried_sizes()) == Err::<PayloadView, _>(
            ParseError {
                kind: ParseErrorKind::LengthMismatch { remaining: rest.len() as usize },
                at: enc_payload(p).len() as usize,
            },
        ),
{
    payload_round_trip_before_more(p, rest);
}

/// No unknown discriminant is ever decoded: an input whose first byte is not
/// one of the payload discriminants is refused with an error that names the
/// byte, whatever follows it, and what is decoded always has the
/// discriminant that the input starts with.
pub proof fn unknown_payload_tag_is_refused(s: Seq<u8>, sizes: Seq<usize>)
    requires
        s.len() >= 1,
    ensures
        !is_payload_tag(s[0]) ==> parse_payload(s, sizes) == Err::<(PayloadView, int), _>(
            ParseError { kind: ParseErrorKind::UnsupportedPayloadTag { tag: s[0] }, at: 0 },
        ),
        parse_payload(s, sizes) matches Ok(r) ==> payload_tag(r.0) == s[0],
{
}

} // verus!
