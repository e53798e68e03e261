//! A parser looks only at the bytes that it takes. It follows that what
//! stands behind a payload does not change what is decoded, and that a
//! payload that is cut short is never decoded.

use vstd::prelude::*;
use crate::types::keys::{
    key_entry_parser, parse_credential_keys, parse_key_entry,
};
use crate::types::transactions::header::decode_payload;
use crate::types::transactions::laws::payload_round_trip;
use crate::types::transactions::payload::{
    credential_id_parser, enc_payload, new_credential_parser, parse_add_baker, parse_baker_keys,
    parse_carried, parse_credential_ids, parse_deploy_module, parse_encrypted_transfer,
    parse_encrypted_transfer_with_memo, parse_init_contract, parse_new_credential,
    parse_new_credentials, parse_payload, parse_payload_body, parse_release, parse_schedule,
    parse_threshold, parse_transfer, parse_transfer_to_public, parse_transfer_with_memo,
    parse_transfer_with_schedule, parse_transfer_with_schedule_and_memo, parse_update_contract,
    parse_update_credential_keys, parse_update_credentials, release_parser, PayloadView,
};
use crate::wire::{
    agree, entry_key, lemma_parse_increasing_local, lemma_parse_many_local,
    lemma_primitives_local, local_at, parse_increasing, parse_u8,
};

verus! {

/// The parsers of baker keys, releases and thresholds look only at what
/// they take.
pub proof fn lemma_fixed_parts_local(s1: Seq<u8>, s2: Seq<u8>)
    ensures
        forall|at: int|
            0 <= at <= s1.len() ==> local_at(
                #[trigger] parse_baker_keys(s1, at),
                parse_baker_keys(s2, at),
                s1,
                s2,
                at,
            ),
        forall|at: int|
            0 <= at <= s1.len() ==> local_at(
                #[trigger] parse_release(s1, at),
                parse_release(s2, at),
                s1,
                s2,
                at,
            ),
        forall|at: int|
            0 <= at <= s1.len() ==> local_at(
                #[trigger] parse_threshold(s1, at),
                parse_threshold(s2, at),
                s1,
                s2,
                at,
            ),
        forall|at: int|
            0 <= at <= s1.len() ==> local_at(
                #[trigger] parse_key_entry(s1, at),
                parse_key_entry(s2, at),
                s1,
                s2,
                at,
            ),
{
    lemma_primitives_local(s1, s2);
}

/// The parser of a schedule looks only at what it takes.
pub proof fn lemma_schedule_local(s1: Seq<u8>, s2: Seq<u8>)
    ensures
        forall|at: int|
            0 <= at <= s1.len() ==> local_at(
                #[trigger] parse_schedule(s1, at),
                parse_schedule(s2, at),
                s1,
                s2,
                at,
            ),
{
    lemma_primitives_local(s1, s2);
    lemma_fixed_parts_local(s1, s2);
    assert forall|at: int| 0 <= at <= s1.len() implies local_at(
        #[trigger] parse_schedule(s1, at),
        parse_schedule(s2, at),
        s1,
        s2,
        at,
    ) by {
        if let Ok(count) = parse_u8(s1, at) {
            assert forall|a: int, i: int| 0 <= a <= s1.len() implies local_at(
                #[trigger] release_parser()(s1, a, i),
                release_parser()(s2, a, i),
                s1,
                s2,
                a,
            ) by {
                assert(local_at(parse_release(s1, a), parse_release(s2, a), s1, s2, a));
            }
            lemma_parse_many_local(s1, s2, count.1, count.0 as nat, release_parser());
        }
    }
}

/// The parser of the ids of credentials looks only at what it takes.
pub proof fn lemma_credential_ids_local(s1: Seq<u8>, s2: Seq<u8>)
    ensures
        forall|at: int|
            0 <= at <= s1.len() ==> local_at(
                #[trigger] parse_credential_ids(s1, at),
                parse_credential_ids(s2, at),
                s1,
                s2,
                at,
            ),
{
    lemma_primitives_local(s1, s2);
    assert forall|at: int| 0 <= at <= s1.len() implies local_at(
        #[trigger] parse_credential_ids(s1, at),
        parse_credential_ids(s2, at),
        s1,
        s2,
        at,
    ) by {
        if let Ok(count) = parse_u8(s1, at) {
            lemma_parse_many_local(s1, s2, count.1, count.0 as nat, credential_id_parser());
        }
    }
}

/// The parser of the keys of a credential looks only at what it takes.
pub proof fn lemma_credential_keys_local(s1: Seq<u8>, s2: Seq<u8>)
    ensures
        forall|at: int|
            0 <= at <= s1.len() ==> local_at(
                #[trigger] parse_credential_keys(s1, at),
                parse_credential_keys(s2, at),
                s1,
                s2,
                at,
            ),
{
    lemma_primitives_local(s1, s2);
    lemma_fixed_parts_local(s1, s2);
    assert forall|at: int| 0 <= at <= s1.len() implies local_at(
        #[trigger] parse_credential_keys(s1, at),
        parse_credential_keys(s2, at),
        s1,
        s2,
        at,
    ) by {
        if let Ok(count) = parse_u8(s1, at) {
            assert forall|a: int, i: int| 0 <= a <= s1.len() implies local_at(
                #[trigger] key_entry_parser()(s1, a, i),
                key_entry_parser()(s2, a, i),
                s1,
                s2,
                a,
            ) by {
                assert(local_at(parse_key_entry(s1, a), parse_key_entry(s2, a), s1, s2, a));
            }
            lemma_parse_increasing_local(
                s1,
                s2,
                count.1,
                count.0 as nat,
                key_entry_parser(),
                entry_key(),
            );
            if let Ok(keys) = parse_increasing(
                s1,
                count.1,
                count.0 as nat,
                key_entry_parser(),
                entry_key(),
            ) {
                assert(local_at(parse_u8(s1, keys.1), parse_u8(s2, keys.1), s1, s2, keys.1));
            }
        }
    }
}

/// The parsers of the parts that are carried as they are look only at what
/// they take.
pub proof fn lemma_carried_local(s1: Seq<u8>, s2: Seq<u8>, sizes: Seq<usize>)
    ensures
        forall|at: int|
            0 <= at <= s1.len() ==> local_at(
                #[trigger] parse_carried(s1, at, sizes),
                parse_carried(s2, at, sizes),
                s1,
                s2,
                at,
            ),
        forall|at: int|
            0 <= at <= s1.len() ==> local_at(
                #[trigger] parse_new_credentials(s1, at, sizes),
                parse_new_credentials(s2, at, sizes),
                s1,
                s2,
                at,
            ),
{
    lemma_primitives_local(s1, s2);
    assert forall|at: int| 0 <= at <= s1.len() implies local_at(
        #[trigger] parse_new_credentials(s1, at, sizes),
        parse_new_credentials(s2, at, sizes),
        s1,
        s2,
        at,
    ) by {
        if let Ok(count) = parse_u8(s1, at) {
            assert forall|a: int, i: int| 0 <= a <= s1.len() implies local_at(
                #[trigger] new_credential_parser(sizes)(s1, a, i),
                new_credential_parser(sizes)(s2, a, i),
                s1,
                s2,
                a,
            ) by {
                assert(local_at(
                    parse_new_credential(s1, a, sizes[i] as int),
                    parse_new_credential(s2, a, sizes[i] as int),
                    s1,
                    s2,
                    a,
                ));
            }
            lemma_parse_increasing_local(
                s1,
                s2,
                count.1,
                count.0 as nat,
                new_credential_parser(sizes),
                entry_key(),
            );
        }
    }
}

/// The parser of the fields of this kind of payload looks only at what it
/// takes.
proof fn lemma_deploy_module_local(s1: Seq<u8>, s2: Seq<u8>)
    ensures
        forall|at: int|
            0 <= at <= s1.len() ==> local_at(
                #[trigger] parse_deploy_module(s1, at),
                parse_deploy_module(s2, at),
                s1,
                s2,
                at,
            ),
{
    lemma_primitives_local(s1, s2);
}

/// The parser of the fields of this kind of payload looks only at what it
/// takes.
proof fn lemma_init_contract_local(s1: Seq<u8>, s2: Seq<u8>)
    ensures
        forall|at: int|
            0 <= at <= s1.len() ==> local_at(
                #[trigger] parse_init_contract(s1, at),
                parse_init_contract(s2, at),
                s1,
                s2,
                at,
            ),
{
    lemma_primitives_local(s1, s2);
}

/// The parser of the fields of this kind of payload looks only at what it
/// takes.
proof fn lemma_update_contract_local(s1: Seq<u8>, s2: Seq<u8>)
    ensures
        forall|at: int|
            0 <= at <= s1.len() ==> local_at(
                #[trigger] parse_update_contract(s1, at),
                parse_update_contract(s2, at),
                s1,
                s2,
                at,
            ),
{
    lemma_primitives_local(s1, s2);
}

/// The parser of the fields of this kind of payload looks only at what it
/// takes.
proof fn lemma_transfer_local(s1: Seq<u8>, s2: Seq<u8>)
    ensures
        forall|at: int|
            0 <= at <= s1.len() ==> local_at(
                #[trigger] parse_transfer(s1, at),
                parse_transfer(s2, at),
                s1,
                s2,
                at,
            ),
{
    lemma_primitives_local(s1, s2);
}

/// The parser of the fields of this kind of payload looks only at what it
/// takes.
proof fn lemma_add_baker_local(s1: Seq<u8>, s2: Seq<u8>)
    ensures
        forall|at: int|
            0 <= at <= s1.len() ==> local_at(
                #[trigger] parse_add_baker(s1, at),
                parse_add_baker(s2, at),
                s1,
                s2,
                at,
            ),
{
    lemma_primitives_local(s1, s2);
    lemma_fixed_parts_local(s1, s2);
}

/// The parser of the fields of this kind of payload looks only at what it
/// takes.
proof fn lemma_update_credential_keys_local(s1: Seq<u8>, s2: Seq<u8>)
    ensures
        forall|at: int|
            0 <= at <= s1.len() ==> local_at(
                #[trigger] parse_update_credential_keys(s1, at),
                parse_update_credential_keys(s2, at),
                s1,
                s2,
                at,
            ),
{
    lemma_primitives_local(s1, s2);
    lemma_credential_keys_local(s1, s2);
}

/// The parser of the fields of this kind of payload looks only at what it
/// takes.
proof fn lemma_encrypted_transfer_local(s1: Seq<u8>, s2: Seq<u8>, sizes: Seq<usize>)
    ensures
        forall|at: int|
            0 <= at <= s1.len() ==> local_at(
                #[trigger] parse_encrypted_transfer(s1, at, sizes),
                parse_encrypted_transfer(s2, at, sizes),
                s1,
                s2,
                at,
            ),
{
    lemma_primitives_local(s1, s2);
    lemma_carried_local(s1, s2, sizes);
}

/// The parser of the fields of this kind of payload looks only at what it
/// takes.
proof fn lemma_transfer_to_public_local(s1: Seq<u8>, s2: Seq<u8>, sizes: Seq<usize>)
    ensures
        forall|at: int|
            0 <= at <= s1.len() ==> local_at(
                #[trigger] parse_transfer_to_public(s1, at, sizes),
                parse_transfer_to_public(s2, at, sizes),
                s1,
                s2,
                at,
            ),
{
    lemma_carried_local(s1, s2, sizes);
}

/// The parser of the fields of this kind of payload looks only at what it
/// takes.
proof fn lemma_transfer_with_schedule_local(s1: Seq<u8>, s2: Seq<u8>)
    ensures
        forall|at: int|
            0 <= at <= s1.len() ==> local_at(
                #[trigger] parse_transfer_with_schedule(s1, at),
                parse_transfer_with_schedule(s2, at),
                s1,
                s2,
                at,
            ),
{
    lemma_primitives_local(s1, s2);
    lemma_schedule_local(s1, s2);
}

/// The parser of the fields of this kind of payload looks only at what it
/// takes.
proof fn lemma_update_credentials_local(s1: Seq<u8>, s2: Seq<u8>, sizes: Seq<usize>)
    ensures
        forall|at: int|
            0 <= at <= s1.len() ==> local_at(
                #[trigger] parse_update_credentials(s1, at, sizes),
                parse_update_credentials(s2, at, sizes),
                s1,
                s2,
                at,
            ),
{
    lemma_primitives_local(s1, s2);
    lemma_fixed_parts_local(s1, s2);
    lemma_carried_local(s1, s2, sizes);
    lemma_credential_ids_local(s1, s2);
}

/// The parser of the fields of this kind of payload looks only at what it
/// takes.
proof fn lemma_transfer_with_memo_local(s1: Seq<u8>, s2: Seq<u8>)
    ensures
        forall|at: int|
            0 <= at <= s1.len() ==> local_at(
                #[trigger] parse_transfer_with_memo(s1, at),
                parse_transfer_with_memo(s2, at),
                s1,
                s2,
                at,
            ),
{
    lemma_primitives_local(s1, s2);
}

/// The parser of the fields of this kind of payload looks only at what it
/// takes.
proof fn lemma_encrypted_transfer_with_memo_local(s1: Seq<u8>, s2: Seq<u8>, sizes: Seq<usize>)
    ensures
        forall|at: int|
            0 <= at <= s1.len() ==> local_at(
                #[trigger] parse_encrypted_transfer_with_memo(s1, at, sizes),
                parse_encrypted_transfer_with_memo(s2, at, sizes),
                s1,
                s2,
                at,
            ),
{
    lemma_primitives_local(s1, s2);
    lemma_carried_local(s1, s2, sizes);
}

/// The parser of the fields of this kind of payload looks only at what it
/// takes.
proof fn lemma_transfer_with_schedule_and_memo_local(s1: Seq<u8>, s2: Seq<u8>)
    ensures
        forall|at: int|
            0 <= at <= s1.len() ==> local_at(
                #[trigger] parse_transfer_with_schedule_and_memo(s1, at),
                parse_transfer_with_schedule_and_memo(s2, at),
                s1,
                s2,
                at,
            ),
{
    lemma_primitives_local(s1, s2);
    lemma_schedule_local(s1, s2);
}

/// The parser of the fields of a payload, of whatever kind, looks only at
/// what it takes.
pub proof fn lemma_payload_body_local(
    s1: Seq<u8>,
    s2: Seq<u8>,
    tag: u8,
    at: int,
    sizes: Seq<usize>,
)
    requires
        0 <= at <= s1.len(),
    ensures
        local_at(
            parse_payload_body(s1, tag, at, sizes),
            parse_payload_body(s2, tag, at, sizes),
            s1,
            s2,
            at,
        ),
{
    if tag == 0 {
        lemma_deploy_module_local(s1, s2);
    } else if tag == 1 {
        lemma_init_contract_local(s1, s2);
    } else if tag == 2 {
        lemma_update_contract_local(s1, s2);
    } else if tag == 3 {
        lemma_transfer_local(s1, s2);
    } else if tag == 4 {
        lemma_add_baker_local(s1, s2);
    } else if tag == 5 {
    } else if tag == 6 || tag == 7 || tag == 17 || tag == 21 {
        lemma_primitives_local(s1, s2);
    } else if tag == 8 {
        lemma_fixed_parts_local(s1, s2);
    } else if tag == 13 {
        lemma_update_credential_keys_local(s1, s2);
    } else if tag == 16 {
        lemma_encrypted_transfer_local(s1, s2, sizes);
    } else if tag == 18 {
        lemma_transfer_to_public_local(s1, s2, sizes);
    } else if tag == 19 {
        lemma_transfer_with_schedule_local(s1, s2);
    } else if tag == 20 {
        lemma_update_credentials_local(s1, s2, sizes);
    } else if tag == 22 {
        lemma_transfer_with_memo_local(s1, s2);
    } else if tag == 23 {
        lemma_encrypted_transfer_with_memo_local(s1, s2, sizes);
    } else if tag == 24 {
        lemma_transfer_with_schedule_and_memo_local(s1, s2);
    }
}

/// The parser of a payload looks only at what it takes: where it yields a
/// payload on one input, it yields the same on every input that holds the
/// same bytes up to the end of what it took.
pub proof fn lemma_payload_local(s1: Seq<u8>, s2: Seq<u8>, sizes: Seq<usize>)
    ensures
        local_at(parse_payload(s1, sizes), parse_payload(s2, sizes), s1, s2, 0),
{
    lemma_primitives_local(s1, s2);
    if let Ok(tag) = parse_u8(s1, 0) {
        lemma_payload_body_local(s1, s2, tag.0, tag.1, sizes);
    }
}

/// A payload that is cut short is never decoded: parsing a strict prefix of
/// the encoding of a payload within the limits of the protocol, the empty
/// one included, is an error. No payload with fewer or shorter fields, and
/// none of another kind, comes out of it.
pub proof fn strict_prefix_is_refused(p: PayloadView, n: int)
    requires
        p.wf(),
        0 <= n < enc_payload(p).len(),
    ensures
        parse_payload(enc_payload(p).take(n), p.carried_sizes()) is Err,
{
    let whole = enc_payload(p);
    let part = whole.take(n);
    payload_round_trip(p);
    lemma_payload_local(part, whole, p.carried_sizes());
    if let Ok(r) = parse_payload(part, p.carried_sizes()) {
        assert(agree(part, whole, r.1));
    }
}

/// The bytes of a payload that is cut short are never decoded: decoding a
/// strict prefix of the encoding of a payload within the limits of the
/// protocol is an error.
pub proof fn truncated_encoding_is_refused(p: PayloadView, n: int)
    requires
        p.wf(),
        0 <= n < enc_payload(p).len(),
    ensures
        decode_payload(enc_payload(p).take(n), p.carried_sizes()) is Err,
{
    strict_prefix_is_refused(p, n);
}

} // verus!
