//! Executable encoding and decoding of payloads, proved against the byte
//! layout.

use vstd::prelude::*;
use core::marker::PhantomData;
use crate::types::basic::{
    AccountAddress, AccountThreshold, Amount, ContractAddress, CredentialRegistrationID, Memo,
    RegisteredData, Timestamp,
};
use crate::types::index_map::{lemma_entries_below, IndexMap};
use crate::types::keys::CredentialPublicKeys;
use crate::types::smart_contracts::{
    InitName, ModuleRef, ModuleSource, Parameter, ReceiveName, WasmModule,
};
use crate::types::transactions::payload::{
    credential_id_encoder, credential_id_parser, enc_baker_keys, enc_credential_ids,
    enc_new_credentials, enc_payload, enc_payload_body, enc_schedule, new_credential_encoder,
    new_credential_parser, parse_add_baker, parse_baker_keys, parse_carried,
    parse_credential_ids, parse_transfer_to_public,
    parse_deploy_module, parse_encrypted_transfer, parse_encrypted_transfer_with_memo,
    parse_init_contract, parse_new_credential, parse_new_credentials, parse_payload,
    parse_payload_body, parse_release, parse_schedule, parse_threshold, parse_transfer,
    parse_transfer_with_memo, parse_transfer_with_schedule, parse_transfer_with_schedule_and_memo,
    parse_update_contract, parse_update_credential_keys, parse_update_credentials, payload_tag,
    release_encoder, release_parser, schedule_view, AddBakerPayload, BakerKeysPayload,
    CredentialDeploymentInfo, EncryptedAmountTransferData, InitContractPayload, Payload,
    SecToPubAmountTransferData, UpdateContractPayload,
};
use crate::wire::{lists, 
    enc_many, entry_key, increasing, lemma_enc_many_push,
    lemma_parse_increasing_error, lemma_parse_increasing_is_increasing,
    lemma_parse_many_error, lemma_views_push, parse_increasing, parse_many, parse_u8, put_bool,
    put_bytes, put_bytes16, put_bytes32, put_u32, put_u64, put_u8, read_array, read_bool,
    read_bytes16, read_bytes32, read_fixed, read_u32, read_u64, read_u8, reads, views, ParseError,
    ParseErrorKind, ParseResult,
};

verus! {

// ---------------------------------------------------------------------------
// Writers of the parts of a payload
// ---------------------------------------------------------------------------

/// Appends the encoding of baker keys.
pub fn write_baker_keys<V>(keys: &BakerKeysPayload<V>, out: &mut Vec<u8>)
    ensures
        final(out)@ == old(out)@ + enc_baker_keys(keys@),
{
    put_bytes(out, keys.election_verify_key.as_slice());
    put_bytes(out, keys.signature_verify_key.as_slice());
    put_bytes(out, keys.aggregation_verify_key.as_slice());
    put_bytes(out, keys.proof_sig.as_slice());
    put_bytes(out, keys.proof_election.as_slice());
    put_bytes(out, keys.proof_aggregation.as_slice());
    assert(out@ =~= old(out)@ + enc_baker_keys(keys@));
}

/// A schedule with one more release has the view of that release added.
pub proof fn lemma_schedule_view_push(schedule: Seq<(Timestamp, Amount)>, r: (Timestamp, Amount))
    ensures
        schedule_view(schedule.push(r)) == schedule_view(schedule).push(
            (r.0.millis, r.1.micro_ccd),
        ),
{
    assert(schedule_view(schedule.push(r)) =~= schedule_view(schedule).push(
        (r.0.millis, r.1.micro_ccd),
    ));
}

/// Appends the encoding of a schedule.
pub fn write_schedule(schedule: &Vec<(Timestamp, Amount)>, out: &mut Vec<u8>)
    ensures
        final(out)@ == old(out)@ + enc_schedule(schedule_view(schedule@)),
{
    put_u8(out, schedule.len() as u8);
    let ghost all = schedule_view(schedule@);
    let mut i: usize = 0;
    while i < schedule.len()
        invariant
            i <= schedule.len(),
            all == schedule_view(schedule@),
            out@ == old(out)@ + seq![schedule@.len() as u8] + enc_many(
                all.take(i as int),
                release_encoder(),
            ),
        decreases schedule.len() - i,
    {
        put_u64(out, schedule[i].0.millis);
        put_u64(out, schedule[i].1.micro_ccd);
        proof {
            let r = all[i as int];
            assert(all.take(i + 1) =~= all.take(i as int).push(r));
            lemma_enc_many_push(all.take(i as int), r, release_encoder());
            assert(out@ =~= old(out)@ + seq![schedule@.len() as u8] + enc_many(
                all.take(i + 1),
                release_encoder(),
            ));
        }
        i = i + 1;
    }
    proof {
        assert(all.take(i as int) =~= all);
    }
}

/// Appends the encoding of the credentials to add.
pub fn write_new_credentials(creds: &IndexMap<CredentialDeploymentInfo>, out: &mut Vec<u8>)
    ensures
        final(out)@ == old(out)@ + enc_new_credentials(creds@),
{
    let n = creds.len();
    put_u8(out, n as u8);
    let mut i: usize = 0;
    let items = creds.entries();
    while i < n
        invariant
            lists(items@, creds@),
            i <= n,
            n == creds@.len(),
            out@ == old(out)@ + seq![creds@.len() as u8] + enc_many(
                creds@.take(i as int),
                new_credential_encoder(),
            ),
        decreases n - i,
    {
        put_u8(out, items[i].0);
        put_bytes(out, items[i].1.bytes.as_slice());
        proof {
            let e = creds@[i as int];
            assert(creds@.take(i + 1) =~= creds@.take(i as int).push(e));
            lemma_enc_many_push(creds@.take(i as int), e, new_credential_encoder());
            assert(out@ =~= old(out)@ + seq![creds@.len() as u8] + enc_many(
                creds@.take(i + 1),
                new_credential_encoder(),
            ));
        }
        i = i + 1;
    }
    proof {
        assert(creds@.take(i as int) =~= creds@);
    }
}

/// Appends the encoding of the ids of the credentials to remove.
pub fn write_credential_ids(ids: &Vec<CredentialRegistrationID>, out: &mut Vec<u8>)
    ensures
        final(out)@ == old(out)@ + enc_credential_ids(views(ids@)),
{
    put_u8(out, ids.len() as u8);
    let ghost all = views(ids@);
    let mut i: usize = 0;
    while i < ids.len()
        invariant
            i <= ids.len(),
            all == views(ids@),
            out@ == old(out)@ + seq![ids@.len() as u8] + enc_many(
                all.take(i as int),
                credential_id_encoder(),
            ),
        decreases ids.len() - i,
    {
        put_bytes(out, ids[i].bytes.as_slice());
        proof {
            let e = all[i as int];
            assert(all.take(i + 1) =~= all.take(i as int).push(e));
            lemma_enc_many_push(all.take(i as int), e, credential_id_encoder());
            assert(out@ =~= old(out)@ + seq![ids@.len() as u8] + enc_many(
                all.take(i + 1),
                credential_id_encoder(),
            ));
        }
        i = i + 1;
    }
    proof {
        assert(all.take(i as int) =~= all);
    }
}

// ---------------------------------------------------------------------------
// Encoding a payload
// ---------------------------------------------------------------------------

impl Payload {
    /// The sizes of the parts of the payload that are carried as they are,
    /// which is what the decoder of its encoding must be handed.
    pub fn carried_sizes(&self) -> (sizes: Vec<usize>)
        ensures
            sizes@ == self@.carried_sizes(),
    {
        let mut sizes: Vec<usize> = Vec::new();
        match self {
            Payload::EncryptedAmountTransfer { to, data } => {
                sizes.push(data.bytes.len());
                assert(sizes@ =~= self@.carried_sizes());
            },
            Payload::TransferToPublic { data } => {
                sizes.push(data.bytes.len());
                assert(sizes@ =~= self@.carried_sizes());
            },
            Payload::EncryptedAmountTransferWithMemo { to, memo, data } => {
                sizes.push(data.bytes.len());
                assert(sizes@ =~= self@.carried_sizes());
            },
            Payload::UpdateCredentials { new_cred_infos, remove_cred_ids, new_threshold } => {
                let n = new_cred_infos.len();
                let mut i: usize = 0;
                let items = new_cred_infos.entries();
                while i < n
                    invariant
                        lists(items@, new_cred_infos@),
                        i <= n,
                        n == new_cred_infos@.len(),
                        sizes@.len() == i,
                        forall|k: int|
                            0 <= k < i ==> sizes@[k] == (#[trigger] new_cred_infos@[k]).1.len(),
                    decreases n - i,
                {
                    sizes.push(items[i].1.bytes.len());
                    i = i + 1;
                }
                assert(sizes@ =~= self@.carried_sizes());
            },
            _ => {
                assert(sizes@ =~= self@.carried_sizes());
            },
        }
        sizes
    }

    /// Whether the payload is within the limits of the protocol, which is
    /// what it takes for its encoding to be decoded again.
    pub fn is_valid(&self) -> (ok: bool)
        ensures
            ok == self@.wf(),
    {
        match self {
            Payload::DeployModule { module } => module.source.bytes.len() <= 65536,
            Payload::InitContract { payload } => payload.init_name.name.len() <= 65535
                && payload.param.bytes.len() <= 1024,
            Payload::Update { payload } => payload.receive_name.name.len() <= 65535
                && payload.message.bytes.len() <= 1024,
            Payload::Transfer { .. } => true,
            Payload::AddBaker { .. } => true,
            Payload::RemoveBaker => true,
            Payload::UpdateBakerStake { .. } => true,
            Payload::UpdateBakerRestakeEarnings { .. } => true,
            Payload::UpdateBakerKeys { .. } => true,
            Payload::UpdateCredentialKeys { cred_id, keys } => keys.is_valid(),
            Payload::EncryptedAmountTransfer { to, data } => {
                assert(data.bytes.len() <= usize::MAX);
                true
            },
            Payload::TransferToEncrypted { .. } => true,
            Payload::TransferToPublic { data } => {
                assert(data.bytes.len() <= usize::MAX);
                true
            },
            Payload::TransferWithSchedule { to, schedule } => schedule.len() <= 255,
            Payload::UpdateCredentials { new_cred_infos, remove_cred_ids, new_threshold } => {
                proof {
                    let creds = new_cred_infos@;
                    new_cred_infos.lemma_wf();
                    lemma_entries_below(new_cred_infos.map@, 256);
                    assert forall|i: int| 0 <= i < creds.len() implies (#[trigger] creds[i]).1.len()
                        <= usize::MAX by {
                        let e = creds[i];
                        assert(e.1 == new_cred_infos.map@[e.0].bytes@);
                        assert(new_cred_infos.map@[e.0].bytes.len() <= usize::MAX);
                    }
                    let ids = views(remove_cred_ids@);
                    assert forall|i: int| 0 <= i < ids.len() implies (#[trigger] ids[i]).len()
                        == 48 by {
                        assert(ids[i] == remove_cred_ids@[i].bytes@);
                    }
                }
                new_cred_infos.len() <= 255
                    && remove_cred_ids.len() <= 255 && new_threshold.threshold >= 1
            },
            Payload::RegisterData { data } => data.bytes.len() <= 256,
            Payload::TransferWithMemo { to_address, memo, amount } => memo.bytes.len() <= 256,
            Payload::EncryptedAmountTransferWithMemo { to, memo, data } => {
                assert(data.bytes.len() <= usize::MAX);
                memo.bytes.len() <= 256
            },
            Payload::TransferWithScheduleAndMemo { to, memo, schedule } => memo.bytes.len() <= 256
                && schedule.len() <= 255,
        }
    }

    /// The discriminant of the payload.
    pub fn tag(&self) -> (tag: u8)
        ensures
            tag == payload_tag(self@),
    {
        match self {
            Payload::DeployModule { .. } => 0,
            Payload::InitContract { .. } => 1,
            Payload::Update { .. } => 2,
            Payload::Transfer { .. } => 3,
            Payload::AddBaker { .. } => 4,
            Payload::RemoveBaker => 5,
            Payload::UpdateBakerStake { .. } => 6,
            Payload::UpdateBakerRestakeEarnings { .. } => 7,
            Payload::UpdateBakerKeys { .. } => 8,
            Payload::UpdateCredentialKeys { .. } => 13,
            Payload::EncryptedAmountTransfer { .. } => 16,
            Payload::TransferToEncrypted { .. } => 17,
            Payload::TransferToPublic { .. } => 18,
            Payload::TransferWithSchedule { .. } => 19,
            Payload::UpdateCredentials { .. } => 20,
            Payload::RegisterData { .. } => 21,
            Payload::TransferWithMemo { .. } => 22,
            Payload::EncryptedAmountTransferWithMemo { .. } => 23,
            Payload::TransferWithScheduleAndMemo { .. } => 24,
        }
    }

    /// Appends the fields of the payload, without its discriminant.
    pub fn serial_body(&self, out: &mut Vec<u8>)
        ensures
            final(out)@ == old(out)@ + enc_payload_body(self@),
    {
        match self {
            Payload::DeployModule { module } => {
                put_u32(out, module.version);
                put_bytes32(out, module.source.bytes.as_slice());
            },
            Payload::InitContract { payload } => {
                put_u64(out, payload.amount.micro_ccd);
                put_bytes(out, payload.mod_ref.bytes.as_slice());
                put_bytes16(out, payload.init_name.name.as_slice());
                put_bytes16(out, payload.param.bytes.as_slice());
            },
            Payload::Update { payload } => {
                put_u64(out, payload.amount.micro_ccd);
                put_u64(out, payload.address.index);
                put_u64(out, payload.address.subindex);
                put_bytes16(out, payload.receive_name.name.as_slice());
                put_bytes16(out, payload.message.bytes.as_slice());
            },
            Payload::Transfer { to_address, amount } => {
                put_bytes(out, to_address.bytes.as_slice());
                put_u64(out, amount.micro_ccd);
            },
            Payload::AddBaker { payload } => {
                write_baker_keys(&payload.keys, out);
                put_u64(out, payload.baking_stake.micro_ccd);
                put_bool(out, payload.restake_earnings);
            },
            Payload::RemoveBaker => {},
            Payload::UpdateBakerStake { stake } => {
                put_u64(out, stake.micro_ccd);
            },
            Payload::UpdateBakerRestakeEarnings { restake_earnings } => {
                put_bool(out, *restake_earnings);
            },
            Payload::UpdateBakerKeys { payload } => {
                write_baker_keys(payload, out);
            },
            Payload::UpdateCredentialKeys { cred_id, keys } => {
                put_bytes(out, cred_id.bytes.as_slice());
                keys.serial(out);
            },
            Payload::EncryptedAmountTransfer { to, data } => {
                put_bytes(out, to.bytes.as_slice());
                put_bytes(out, data.bytes.as_slice());
            },
            Payload::TransferToEncrypted { amount } => {
                put_u64(out, amount.micro_ccd);
            },
            Payload::TransferToPublic { data } => {
                put_bytes(out, data.bytes.as_slice());
            },
            Payload::TransferWithSchedule { to, schedule } => {
                put_bytes(out, to.bytes.as_slice());
                write_schedule(schedule, out);
            },
            Payload::UpdateCredentials { new_cred_infos, remove_cred_ids, new_threshold } => {
                write_new_credentials(new_cred_infos, out);
                write_credential_ids(remove_cred_ids, out);
                put_u8(out, new_threshold.threshold);
            },
            Payload::RegisterData { data } => {
                put_bytes16(out, data.bytes.as_slice());
            },
            Payload::TransferWithMemo { to_address, memo, amount } => {
                put_bytes(out, to_address.bytes.as_slice());
                put_bytes16(out, memo.bytes.as_slice());
                put_u64(out, amount.micro_ccd);
            },
            Payload::EncryptedAmountTransferWithMemo { to, memo, data } => {
                put_bytes(out, to.bytes.as_slice());
                put_bytes16(out, memo.bytes.as_slice());
                put_bytes(out, data.bytes.as_slice());
            },
            Payload::TransferWithScheduleAndMemo { to, memo, schedule } => {
                put_bytes(out, to.bytes.as_slice());
                put_bytes16(out, memo.bytes.as_slice());
                write_schedule(schedule, out);
            },
        }
        assert(out@ =~= old(out)@ + enc_payload_body(self@));
    }

    /// Appends the encoding of the payload: its discriminant, then its
    /// fields in their declared order.
    pub fn serial(&self, out: &mut Vec<u8>)
        ensures
            final(out)@ == old(out)@ + enc_payload(self@),
    {
        put_u8(out, self.tag());
        self.serial_body(out);
        assert(out@ =~= old(out)@ + enc_payload(self@));
    }
}

// ---------------------------------------------------------------------------
// Readers of the parts of a payload
// ---------------------------------------------------------------------------

/// Reads baker keys at offset `at`.
pub fn read_baker_keys<V>(src: &[u8], at: usize) -> (r: ParseResult<BakerKeysPayload<V>>)
    requires
        at <= src.len(),
    ensures
        reads(r, parse_baker_keys(src@, at as int), src@.len()),
{
    let (election_verify_key, a1) = read_array::<32>(src, at)?;
    let (signature_verify_key, a2) = read_array::<32>(src, a1)?;
    let (aggregation_verify_key, a3) = read_array::<96>(src, a2)?;
    let (proof_sig, a4) = read_array::<64>(src, a3)?;
    let (proof_election, a5) = read_array::<64>(src, a4)?;
    let (proof_aggregation, a6) = read_array::<64>(src, a5)?;
    Ok(
        (
            BakerKeysPayload {
                phantom: PhantomData,
                election_verify_key,
                signature_verify_key,
                aggregation_verify_key,
                proof_sig,
                proof_election,
                proof_aggregation,
            },
            a6,
        ),
    )
}

/// Reads a release at offset `at`.
pub fn read_release(src: &[u8], at: usize) -> (r: ParseResult<(Timestamp, Amount)>)
    requires
        at <= src.len(),
    ensures
        r matches Ok(p) ==> parse_release(src@, at as int) == Ok::<_, ParseError>(
            ((p.0.0.millis, p.0.1.micro_ccd), p.1 as int),
        ) && p.1 <= src.len(),
        r matches Err(e) ==> parse_release(src@, at as int) == Err::<((u64, u64), int), _>(e),
{
    let (millis, a1) = read_u64(src, at)?;
    let (micro_ccd, a2) = read_u64(src, a1)?;
    Ok(((Timestamp { millis }, Amount { micro_ccd }), a2))
}

/// Reads a schedule at offset `at`.
pub fn read_schedule(src: &[u8], at: usize) -> (r: ParseResult<Vec<(Timestamp, Amount)>>)
    requires
        at <= src.len(),
    ensures
        r matches Ok(p) ==> parse_schedule(src@, at as int) == Ok::<_, ParseError>(
            (schedule_view(p.0@), p.1 as int),
        ) && p.1 <= src.len(),
        r matches Err(e) ==> parse_schedule(src@, at as int) == Err::<(Seq<(u64, u64)>, int), _>(
            e,
        ),
        r matches Ok(p) ==> p.0@.len() <= 255,
{
    let (n, a1) = read_u8(src, at)?;
    let mut schedule: Vec<(Timestamp, Amount)> = Vec::new();
    let mut pos: usize = a1;
    let mut i: u8 = 0;
    assert(schedule_view(schedule@) =~= Seq::empty());
    while i < n
        invariant
            i <= n,
            a1 <= pos <= src.len(),
            at <= src.len(),
            parse_u8(src@, at as int) == Ok::<_, ParseError>((n, a1 as int)),
            parse_many(src@, a1 as int, i as nat, release_parser()) == Ok::<_, ParseError>(
                (schedule_view(schedule@), pos as int),
            ),
            schedule@.len() == i,
        decreases n - i,
    {
        let release = read_release(src, pos);
        proof {
            if release is Err {
                assert(parse_many(src@, a1 as int, (i + 1) as nat, release_parser()) is Err);
                lemma_parse_many_error(
                    src@,
                    a1 as int,
                    (i + 1) as nat,
                    n as nat,
                    release_parser(),
                );
            }
        }
        let (r, next) = release?;
        proof {
            lemma_schedule_view_push(schedule@, r);
        }
        schedule.push(r);
        pos = next;
        i = i + 1;
    }
    Ok((schedule, pos))
}

/// Reads a credential to add at offset `at`, whose bytes are as many as
/// `size` says.
pub fn read_new_credential(src: &[u8], at: usize, size: usize) -> (r: ParseResult<
    (u8, CredentialDeploymentInfo),
>)
    requires
        at <= src.len(),
    ensures
        reads(r, parse_new_credential(src@, at as int, size as int), src@.len()),
{
    let (index, a1) = read_u8(src, at)?;
    let (bytes, a2) = read_fixed(src, a1, size)?;
    Ok(((index, CredentialDeploymentInfo { bytes }), a2))
}

/// Reads the credentials to add at offset `at`, given the size of each.
pub fn read_new_credentials(src: &[u8], at: usize, sizes: &[usize]) -> (r: ParseResult<
    IndexMap<CredentialDeploymentInfo>,
>)
    requires
        at <= src.len(),
    ensures
        r matches Ok(p) ==> parse_new_credentials(src@, at as int, sizes@) == Ok::<_, ParseError>(
            (p.0@, p.1 as int),
        ) && p.1 <= src.len(),
        r matches Err(e) ==> parse_new_credentials(src@, at as int, sizes@) == Err::<
            (Seq<(u8, Seq<u8>)>, int),
            _,
        >(e),
        r matches Ok(p) ==> p.0@.len() <= 255 && increasing(p.0@, entry_key()),
{
    let (n, a1) = read_u8(src, at)?;
    if sizes.len() != n as usize {
        return Err(ParseError { kind: ParseErrorKind::CarriedSizes { needed: n }, at });
    }
    let mut creds: Vec<(u8, CredentialDeploymentInfo)> = Vec::new();
    let mut pos: usize = a1;
    let mut i: u8 = 0;
    assert(views(creds@) =~= Seq::empty());
    while i < n
        invariant
            i <= n,
            a1 <= pos <= src.len(),
            at <= src.len(),
            sizes@.len() == n,
            parse_u8(src@, at as int) == Ok::<_, ParseError>((n, a1 as int)),
            parse_increasing(
                src@,
                a1 as int,
                i as nat,
                new_credential_parser(sizes@),
                entry_key(),
            ) == Ok::<_, ParseError>((views(creds@), pos as int)),
            creds@.len() == i,
        decreases n - i,
    {
        let entry = read_new_credential(src, pos, sizes[i as usize]);
        let in_order = match &entry {
            Ok(e) => creds.len() == 0 || creds[creds.len() - 1].0 < e.0.0,
            Err(_) => true,
        };
        proof {
            if creds@.len() > 0 {
                assert(views(creds@).last() == creds@.last()@);
            }
            if entry is Err || !in_order {
                assert(parse_increasing(
                    src@,
                    a1 as int,
                    (i + 1) as nat,
                    new_credential_parser(sizes@),
                    entry_key(),
                ) is Err);
                lemma_parse_increasing_error(
                    src@,
                    a1 as int,
                    (i + 1) as nat,
                    n as nat,
                    new_credential_parser(sizes@),
                    entry_key(),
                );
            }
        }
        let (e, next) = entry?;
        if !in_order {
            return Err(ParseError { kind: ParseErrorKind::KeysNotInOrder, at: pos });
        }
        proof {
            lemma_views_push(creds@, e);
        }
        creds.push(e);
        pos = next;
        i = i + 1;
    }
    proof {
        lemma_parse_increasing_is_increasing(
            src@,
            a1 as int,
            n as nat,
            new_credential_parser(sizes@),
            entry_key(),
        );
    }
    Ok((IndexMap::from_increasing(creds), pos))
}

/// Reads the ids of the credentials to remove at offset `at`.
pub fn read_credential_ids(src: &[u8], at: usize) -> (r: ParseResult<
    Vec<CredentialRegistrationID>,
>)
    requires
        at <= src.len(),
    ensures
        r matches Ok(p) ==> parse_credential_ids(src@, at as int) == Ok::<_, ParseError>(
            (views(p.0@), p.1 as int),
        ) && p.1 <= src.len(),
        r matches Err(e) ==> parse_credential_ids(src@, at as int) == Err::<
            (Seq<Seq<u8>>, int),
            _,
        >(e),
        r matches Ok(p) ==> p.0@.len() <= 255,
{
    let (n, a1) = read_u8(src, at)?;
    let mut ids: Vec<CredentialRegistrationID> = Vec::new();
    let mut pos: usize = a1;
    let mut i: u8 = 0;
    assert(views(ids@) =~= Seq::empty());
    while i < n
        invariant
            i <= n,
            a1 <= pos <= src.len(),
            at <= src.len(),
            parse_u8(src@, at as int) == Ok::<_, ParseError>((n, a1 as int)),
            parse_many(src@, a1 as int, i as nat, credential_id_parser()) == Ok::<_, ParseError>(
                (views(ids@), pos as int),
            ),
            ids@.len() == i,
        decreases n - i,
    {
        let id = read_array::<48>(src, pos);
        proof {
            if id is Err {
                assert(parse_many(src@, a1 as int, (i + 1) as nat, credential_id_parser()) is Err);
                lemma_parse_many_error(
                    src@,
                    a1 as int,
                    (i + 1) as nat,
                    n as nat,
                    credential_id_parser(),
                );
            }
        }
        let (bytes, next) = id?;
        proof {
            lemma_views_push(ids@, CredentialRegistrationID { bytes });
        }
        ids.push(CredentialRegistrationID { bytes });
        pos = next;
        i = i + 1;
    }
    Ok((ids, pos))
}

/// Reads a threshold at offset `at`.
pub fn read_threshold(src: &[u8], at: usize) -> (r: ParseResult<u8>)
    requires
        at <= src.len(),
    ensures
        reads(r, parse_threshold(src@, at as int), src@.len()),
        r matches Ok(p) ==> p.0 >= 1,
{
    let (threshold, a1) = read_u8(src, at)?;
    if threshold == 0 {
        return Err(ParseError { kind: ParseErrorKind::ZeroThreshold, at });
    }
    Ok((threshold, a1))
}

// ---------------------------------------------------------------------------
// Decoding a payload
// ---------------------------------------------------------------------------

/// Reads the fields of a module deployment at offset `at`.
pub fn read_deploy_module(src: &[u8], at: usize) -> (r: ParseResult<Payload>)
    requires
        at <= src.len(),
    ensures
        reads(r, parse_deploy_module(src@, at as int), src@.len()),
        r matches Ok(p) ==> p.0@.wf(),
{
    let (version, a1) = read_u32(src, at)?;
    let (bytes, a2) = read_bytes32(src, a1, 65536)?;
    Ok((Payload::DeployModule { module: WasmModule { version, source: ModuleSource { bytes } } }, a2))
}

/// Reads the fields of a contract initialization at offset `at`.
pub fn read_init_contract(src: &[u8], at: usize) -> (r: ParseResult<Payload>)
    requires
        at <= src.len(),
    ensures
        reads(r, parse_init_contract(src@, at as int), src@.len()),
        r matches Ok(p) ==> p.0@.wf(),
{
    let (micro_ccd, a1) = read_u64(src, at)?;
    let (mod_ref, a2) = read_array::<32>(src, a1)?;
    let (name, a3) = read_bytes16(src, a2, 65535)?;
    let (param, a4) = read_bytes16(src, a3, 1024)?;
    Ok(
        (
            Payload::InitContract {
                payload: InitContractPayload {
                    amount: Amount { micro_ccd },
                    mod_ref: ModuleRef { bytes: mod_ref },
                    init_name: InitName { name },
                    param: Parameter { bytes: param },
                },
            },
            a4,
        ),
    )
}

/// Reads the fields of a contract update at offset `at`.
pub fn read_update_contract(src: &[u8], at: usize) -> (r: ParseResult<Payload>)
    requires
        at <= src.len(),
    ensures
        reads(r, parse_update_contract(src@, at as int), src@.len()),
        r matches Ok(p) ==> p.0@.wf(),
{
    let (micro_ccd, a1) = read_u64(src, at)?;
    let (index, a2) = read_u64(src, a1)?;
    let (subindex, a3) = read_u64(src, a2)?;
    let (name, a4) = read_bytes16(src, a3, 65535)?;
    let (message, a5) = read_bytes16(src, a4, 1024)?;
    Ok(
        (
            Payload::Update {
                payload: UpdateContractPayload {
                    amount: Amount { micro_ccd },
                    address: ContractAddress { index, subindex },
                    receive_name: ReceiveName { name },
                    message: Parameter { bytes: message },
                },
            },
            a5,
        ),
    )
}

/// Reads the fields of a transfer at offset `at`.
pub fn read_transfer(src: &[u8], at: usize) -> (r: ParseResult<Payload>)
    requires
        at <= src.len(),
    ensures
        reads(r, parse_transfer(src@, at as int), src@.len()),
        r matches Ok(p) ==> p.0@.wf(),
{
    let (to, a1) = read_array::<32>(src, at)?;
    let (micro_ccd, a2) = read_u64(src, a1)?;
    Ok(
        (
            Payload::Transfer {
                to_address: AccountAddress { bytes: to },
                amount: Amount { micro_ccd },
            },
            a2,
        ),
    )
}

/// Reads the fields of a baker registration at offset `at`.
pub fn read_add_baker(src: &[u8], at: usize) -> (r: ParseResult<Payload>)
    requires
        at <= src.len(),
    ensures
        reads(r, parse_add_baker(src@, at as int), src@.len()),
        r matches Ok(p) ==> p.0@.wf(),
{
    let (keys, a1) = read_baker_keys(src, at)?;
    let (micro_ccd, a2) = read_u64(src, a1)?;
    let (restake_earnings, a3) = read_bool(src, a2)?;
    Ok(
        (
            Payload::AddBaker {
                payload: Box::new(
                    AddBakerPayload {
                        keys,
                        baking_stake: Amount { micro_ccd },
                        restake_earnings,
                    },
                ),
            },
            a3,
        ),
    )
}

/// Reads the fields of an update of a credential's keys at offset `at`.
pub fn read_update_credential_keys(src: &[u8], at: usize) -> (r: ParseResult<Payload>)
    requires
        at <= src.len(),
    ensures
        reads(r, parse_update_credential_keys(src@, at as int), src@.len()),
        r matches Ok(p) ==> p.0@.wf(),
{
    let (cred_id, a1) = read_array::<48>(src, at)?;
    let (keys, a2) = CredentialPublicKeys::deserial(src, a1)?;
    Ok(
        (
            Payload::UpdateCredentialKeys {
                cred_id: CredentialRegistrationID { bytes: cred_id },
                keys,
            },
            a2,
        ),
    )
}

/// Reads a part that is carried as it is at offset `at`: as many bytes as
/// the one size says that is handed over.
pub fn read_carried(src: &[u8], at: usize, sizes: &[usize]) -> (r: ParseResult<Vec<u8>>)
    requires
        at <= src.len(),
    ensures
        reads(r, parse_carried(src@, at as int, sizes@), src@.len()),
{
    if sizes.len() != 1 {
        return Err(ParseError { kind: ParseErrorKind::CarriedSizes { needed: 1 }, at });
    }
    read_fixed(src, at, sizes[0])
}

/// Reads the fields of an encrypted transfer at offset `at`, given the size
/// of its data.
pub fn read_encrypted_transfer(src: &[u8], at: usize, sizes: &[usize]) -> (r: ParseResult<
    Payload,
>)
    requires
        at <= src.len(),
    ensures
        reads(r, parse_encrypted_transfer(src@, at as int, sizes@), src@.len()),
        r matches Ok(p) ==> p.0@.wf(),
{
    let (to, a1) = read_array::<32>(src, at)?;
    let (bytes, a2) = read_carried(src, a1, sizes)?;
    Ok(
        (
            Payload::EncryptedAmountTransfer {
                to: AccountAddress { bytes: to },
                data: Box::new(EncryptedAmountTransferData { bytes }),
            },
            a2,
        ),
    )
}

/// Reads the fields of a transfer to the public balance at offset `at`,
/// given the size of its data.
pub fn read_transfer_to_public(src: &[u8], at: usize, sizes: &[usize]) -> (r: ParseResult<
    Payload,
>)
    requires
        at <= src.len(),
    ensures
        reads(r, parse_transfer_to_public(src@, at as int, sizes@), src@.len()),
        r matches Ok(p) ==> p.0@.wf(),
{
    let (bytes, a1) = read_carried(src, at, sizes)?;
    Ok((Payload::TransferToPublic { data: Box::new(SecToPubAmountTransferData { bytes }) }, a1))
}

/// Reads the fields of a scheduled transfer at offset `at`.
pub fn read_transfer_with_schedule(src: &[u8], at: usize) -> (r: ParseResult<Payload>)
    requires
        at <= src.len(),
    ensures
        reads(r, parse_transfer_with_schedule(src@, at as int), src@.len()),
        r matches Ok(p) ==> p.0@.wf(),
{
    let (to, a1) = read_array::<32>(src, at)?;
    let (schedule, a2) = read_schedule(src, a1)?;
    Ok((Payload::TransferWithSchedule { to: AccountAddress { bytes: to }, schedule }, a2))
}

/// Reads the fields of an update of the account's credentials at offset
/// `at`, given the size of each credential that is added.
pub fn read_update_credentials(src: &[u8], at: usize, sizes: &[usize]) -> (r: ParseResult<
    Payload,
>)
    requires
        at <= src.len(),
    ensures
        reads(r, parse_update_credentials(src@, at as int, sizes@), src@.len()),
        r matches Ok(p) ==> p.0@.wf(),
{
    let (new_cred_infos, a1) = read_new_credentials(src, at, sizes)?;
    let (remove_cred_ids, a2) = read_credential_ids(src, a1)?;
    let (threshold, a3) = read_threshold(src, a2)?;
    proof {
        let creds = new_cred_infos@;
        lemma_entries_below(new_cred_infos.map@, 256);
        assert forall|i: int| 0 <= i < creds.len() implies (#[trigger] creds[i]).1.len()
            <= usize::MAX by {
            let e = creds[i];
            assert(e.1 == new_cred_infos.map@[e.0].bytes@);
            assert(new_cred_infos.map@[e.0].bytes.len() <= usize::MAX);
        }
        let ids = views(remove_cred_ids@);
        assert forall|i: int| 0 <= i < ids.len() implies (#[trigger] ids[i]).len() == 48 by {
            assert(ids[i] == remove_cred_ids@[i].bytes@);
        }
    }
    Ok(
        (
            Payload::UpdateCredentials {
                new_cred_infos,
                remove_cred_ids,
                new_threshold: AccountThreshold { threshold },
            },
            a3,
        ),
    )
}

/// Reads the fields of a transfer with a memo at offset `at`.
pub fn read_transfer_with_memo(src: &[u8], at: usize) -> (r: ParseResult<Payload>)
    requires
        at <= src.len(),
    ensures
        reads(r, parse_transfer_with_memo(src@, at as int), src@.len()),
        r matches Ok(p) ==> p.0@.wf(),
{
    let (to, a1) = read_array::<32>(src, at)?;
    let (memo, a2) = read_bytes16(src, a1, 256)?;
    let (micro_ccd, a3) = read_u64(src, a2)?;
    Ok(
        (
            Payload::TransferWithMemo {
                to_address: AccountAddress { bytes: to },
                memo: Memo { bytes: memo },
                amount: Amount { micro_ccd },
            },
            a3,
        ),
    )
}

/// Reads the fields of an encrypted transfer with a memo at offset `at`,
/// given the size of its data.
pub fn read_encrypted_transfer_with_memo(src: &[u8], at: usize, sizes: &[usize]) -> (r:
    ParseResult<Payload>)
    requires
        at <= src.len(),
    ensures
        reads(r, parse_encrypted_transfer_with_memo(src@, at as int, sizes@), src@.len()),
        r matches Ok(p) ==> p.0@.wf(),
{
    let (to, a1) = read_array::<32>(src, at)?;
    let (memo, a2) = read_bytes16(src, a1, 256)?;
    let (bytes, a3) = read_carried(src, a2, sizes)?;
    Ok(
        (
            Payload::EncryptedAmountTransferWithMemo {
                to: AccountAddress { bytes: to },
                memo: Memo { bytes: memo },
                data: Box::new(EncryptedAmountTransferData { bytes }),
            },
            a3,
        ),
    )
}

/// Reads the fields of a scheduled transfer with a memo at offset `at`.
pub fn read_transfer_with_schedule_and_memo(src: &[u8], at: usize) -> (r: ParseResult<Payload>)
    requires
        at <= src.len(),
    ensures
        reads(r, parse_transfer_with_schedule_and_memo(src@, at as int), src@.len()),
        r matches Ok(p) ==> p.0@.wf(),
{
    let (to, a1) = read_array::<32>(src, at)?;
    let (memo, a2) = read_bytes16(src, a1, 256)?;
    let (schedule, a3) = read_schedule(src, a2)?;
    Ok(
        (
            Payload::TransferWithScheduleAndMemo {
                to: AccountAddress { bytes: to },
                memo: Memo { bytes: memo },
                schedule,
            },
            a3,
        ),
    )
}

impl Payload {
    /// Reads the fields of the payload with discriminant `tag` at offset
    /// `at`: each discriminant has its own reader, and a discriminant without
    /// one is an error.
    pub fn deserial_body(src: &[u8], tag: u8, at: usize, carried_sizes: &[usize]) -> (r:
        ParseResult<Payload>)
        requires
            1 <= at <= src.len(),
        ensures
            reads(r, parse_payload_body(src@, tag, at as int, carried_sizes@), src@.len()),
            r matches Ok(p) ==> p.0@.wf(),
    {
        match tag {
            0 => read_deploy_module(src, at),
            1 => read_init_contract(src, at),
            2 => read_update_contract(src, at),
            3 => read_transfer(src, at),
            4 => read_add_baker(src, at),
            5 => Ok((Payload::RemoveBaker, at)),
            6 => {
                let (micro_ccd, a1) = read_u64(src, at)?;
                Ok((Payload::UpdateBakerStake { stake: Amount { micro_ccd } }, a1))
            },
            7 => {
                let (restake_earnings, a1) = read_bool(src, at)?;
                Ok((Payload::UpdateBakerRestakeEarnings { restake_earnings }, a1))
            },
            8 => {
                let (keys, a1) = read_baker_keys(src, at)?;
                Ok((Payload::UpdateBakerKeys { payload: Box::new(keys) }, a1))
            },
            13 => read_update_credential_keys(src, at),
            16 => read_encrypted_transfer(src, at, carried_sizes),
            17 => {
                let (micro_ccd, a1) = read_u64(src, at)?;
                Ok((Payload::TransferToEncrypted { amount: Amount { micro_ccd } }, a1))
            },
            18 => read_transfer_to_public(src, at, carried_sizes),
            19 => read_transfer_with_schedule(src, at),
            20 => read_update_credentials(src, at, carried_sizes),
            21 => {
                let (bytes, a1) = read_bytes16(src, at, 256)?;
                Ok((Payload::RegisterData { data: RegisteredData { bytes } }, a1))
            },
            22 => read_transfer_with_memo(src, at),
            23 => read_encrypted_transfer_with_memo(src, at, carried_sizes),
            24 => read_transfer_with_schedule_and_memo(src, at),
            _ => Err(
                ParseError { kind: ParseErrorKind::UnsupportedPayloadTag { tag }, at: at - 1 },
            ),
        }
    }

    /// Reads a payload at the start of `src`: the discriminant, then the
    /// fields that it announces. Returns the payload with the number of bytes
    /// it took; what follows them in `src` is not looked at. `carried_sizes`
    /// holds the sizes of the parts that are carried as they are, in their
    /// order: one for the data of an encrypted transfer or of a transfer to
    /// the public balance, one for each credential that an update of
    /// credentials adds. No other payload looks at it.
    pub fn deserial(src: &[u8], carried_sizes: &[usize]) -> (r: ParseResult<Payload>)
        ensures
            reads(r, parse_payload(src@, carried_sizes@), src@.len()),
            r matches Ok(p) ==> p.0@.wf(),
    {
        let (tag, a1) = read_u8(src, 0)?;
        Payload::deserial_body(src, tag, a1, carried_sizes)
    }
}

} // verus!
