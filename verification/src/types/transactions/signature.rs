//! The signature of an account transaction: for each credential that signs,
//! the signatures of its keys. Both levels are kept by strictly increasing
//! index, which fixes the byte layout.

use vstd::prelude::*;
use crate::types::index_map::IndexMap;
use crate::types::keys::Signature;
use crate::wire::{lists, 
    and_next, enc_bytes16, enc_many, entry_key, has_at, increasing, lemma_be_lengths,
    lemma_enc_many_push, lemma_has_at_concat, lemma_parse_bytes16, lemma_parse_increasing,
    lemma_parse_increasing_error, lemma_parse_increasing_is_increasing, lemma_parse_u8,
    lemma_views_push, parse_bytes16,
    parse_increasing, parse_u8, put_bytes16, put_u8, read_bytes16, read_u8, reads, views,
    ParseError, ParseErrorKind, ParseResult, Parsed,
};

verus! {

/// The signatures of the keys of one credential, by key index.
pub type CredentialSignaturesView = Seq<(u8, Seq<u8>)>;

/// The mathematical content of [`TransactionSignature`]: by credential
/// index, the signatures by key index.
pub type TransactionSignatureView = Seq<(u8, CredentialSignaturesView)>;

/// The signature of an account transaction: a map from the index of a
/// credential to a map from the index of a key to its signature.
#[derive(Clone, Debug, PartialEq, Eq)]
pub struct TransactionSignature {
    pub signatures: IndexMap<IndexMap<Signature>>,
}

impl View for TransactionSignature {
    type V = TransactionSignatureView;

    open spec fn view(&self) -> TransactionSignatureView {
        self.signatures@
    }
}

/// The signatures of a credential are at most 255, by strictly increasing
/// key index, and each is at most 65535 bytes long.
pub open spec fn credential_signatures_wf(sigs: CredentialSignaturesView) -> bool {
    &&& sigs.len() <= 255
    &&& increasing(sigs, entry_key())
    &&& forall|j: int| 0 <= j < sigs.len() ==> (#[trigger] sigs[j]).1.len() <= 65535
}

/// The credentials of a transaction signature are at most 255, by strictly
/// increasing index, and the signatures of each are well formed.
pub open spec fn transaction_signature_wf(sig: TransactionSignatureView) -> bool {
    &&& sig.len() <= 255
    &&& increasing(sig, entry_key())
    &&& forall|i: int| 0 <= i < sig.len() ==> credential_signatures_wf((#[trigger] sig[i]).1)
}

// ---------------------------------------------------------------------------
// The byte layout
// ---------------------------------------------------------------------------

/// The encoding of the signature of a key: the index of the key, then the
/// signature behind its length as a 16-bit integer.
pub open spec fn enc_key_signature(e: (u8, Seq<u8>)) -> Seq<u8> {
    seq![e.0] + enc_bytes16(e.1)
}

/// [`enc_key_signature`] as a value.
pub open spec fn key_signature_encoder() -> spec_fn((u8, Seq<u8>)) -> Seq<u8> {
    |e: (u8, Seq<u8>)| enc_key_signature(e)
}

/// The encoding of the signatures of a credential: their number in one
/// byte, then the signatures by increasing key index.
pub open spec fn enc_credential_signatures(sigs: CredentialSignaturesView) -> Seq<u8> {
    seq![sigs.len() as u8] + enc_many(sigs, key_signature_encoder())
}

/// The encoding of a credential's entry: the index of the credential, then
/// its signatures.
pub open spec fn enc_credential_entry(e: (u8, CredentialSignaturesView)) -> Seq<u8> {
    seq![e.0] + enc_credential_signatures(e.1)
}

/// [`enc_credential_entry`] as a value.
pub open spec fn credential_entry_encoder() -> spec_fn((u8, CredentialSignaturesView)) -> Seq<u8> {
    |e: (u8, CredentialSignaturesView)| enc_credential_entry(e)
}

/// The encoding of a transaction signature: the number of credentials in
/// one byte, then their entries by increasing credential index.
pub open spec fn enc_transaction_signature(sig: TransactionSignatureView) -> Seq<u8> {
    seq![sig.len() as u8] + enc_many(sig, credential_entry_encoder())
}

/// The signature of a key at offset `at`.
pub open spec fn parse_key_signature(s: Seq<u8>, at: int) -> Parsed<(u8, Seq<u8>)> {
    and_next(
        parse_u8(s, at),
        |index: u8, a1: int|
            and_next(
                parse_bytes16(s, a1, 65535),
                |sig: Seq<u8>, a2: int| Ok::<_, ParseError>(((index, sig), a2)),
            ),
    )
}

/// [`parse_key_signature`] as a value.
pub open spec fn key_signature_parser() -> spec_fn(Seq<u8>, int, int) -> Parsed<(u8, Seq<u8>)> {
    |s: Seq<u8>, at: int, i: int| parse_key_signature(s, at)
}

/// The signatures of a credential at offset `at`.
pub open spec fn parse_credential_signatures(s: Seq<u8>, at: int) -> Parsed<
    CredentialSignaturesView,
> {
    and_next(
        parse_u8(s, at),
        |n: u8, a1: int|
            parse_increasing(s, a1, n as nat, key_signature_parser(), entry_key()),
    )
}

/// The entry of a credential at offset `at`.
pub open spec fn parse_credential_entry(s: Seq<u8>, at: int) -> Parsed<
    (u8, CredentialSignaturesView),
> {
    and_next(
        parse_u8(s, at),
        |index: u8, a1: int|
            and_next(
                parse_credential_signatures(s, a1),
                |sigs: CredentialSignaturesView, a2: int| Ok::<_, ParseError>(((index, sigs), a2)),
            ),
    )
}

/// [`parse_credential_entry`] as a value.
pub open spec fn credential_entry_parser() -> spec_fn(Seq<u8>, int, int) -> Parsed<
    (u8, CredentialSignaturesView),
> {
    |s: Seq<u8>, at: int, i: int| parse_credential_entry(s, at)
}

/// A transaction signature at offset `at`.
pub open spec fn parse_transaction_signature(s: Seq<u8>, at: int) -> Parsed<
    TransactionSignatureView,
> {
    and_next(
        parse_u8(s, at),
        |n: u8, a1: int|
            parse_increasing(s, a1, n as nat, credential_entry_parser(), entry_key()),
    )
}

// ---------------------------------------------------------------------------
// Executable encoding and decoding
// ---------------------------------------------------------------------------

/// Appends the encoding of the signatures of a credential.
pub fn write_credential_signatures(sigs: &IndexMap<Signature>, out: &mut Vec<u8>)
    ensures
        final(out)@ == old(out)@ + enc_credential_signatures(sigs@),
{
    put_u8(out, sigs.len() as u8);
    let mut j: usize = 0;
    let items = sigs.entries();
    while j < sigs.len()
        invariant
            lists(items@, sigs@),
            j <= sigs@.len(),
            out@ == old(out)@ + seq![sigs@.len() as u8] + enc_many(
                sigs@.take(j as int),
                key_signature_encoder(),
            ),
        decreases sigs@.len() - j,
    {
        put_u8(out, items[j].0);
        put_bytes16(out, items[j].1.sig.as_slice());
        proof {
            let e = sigs@[j as int];
            assert(sigs@.take(j + 1) =~= sigs@.take(j as int).push(e));
            lemma_enc_many_push(sigs@.take(j as int), e, key_signature_encoder());
            assert(out@ =~= old(out)@ + seq![sigs@.len() as u8] + enc_many(
                sigs@.take(j + 1),
                key_signature_encoder(),
            ));
        }
        j = j + 1;
    }
    proof {
        assert(sigs@.take(j as int) =~= sigs@);
    }
}

/// Reads the signature of a key at offset `at`.
pub fn read_key_signature(src: &[u8], at: usize) -> (r: ParseResult<(u8, Signature)>)
    requires
        at <= src.len(),
    ensures
        reads(r, parse_key_signature(src@, at as int), src@.len()),
        r matches Ok(p) ==> p.0.1@.len() <= 65535,
{
    let (index, a1) = read_u8(src, at)?;
    let (sig, a2) = read_bytes16(src, a1, 65535)?;
    Ok(((index, Signature { sig }), a2))
}

/// Reads the signatures of a credential at offset `at`.
pub fn read_credential_signatures(src: &[u8], at: usize) -> (r: ParseResult<IndexMap<Signature>>)
    requires
        at <= src.len(),
    ensures
        reads(r, parse_credential_signatures(src@, at as int), src@.len()),
        r matches Ok(p) ==> credential_signatures_wf(p.0@),
{
    let (n, a1) = read_u8(src, at)?;
    let mut sigs: Vec<(u8, Signature)> = Vec::new();
    let mut pos: usize = a1;
    let mut j: u8 = 0;
    assert(views(sigs@) =~= Seq::empty());
    while j < n
        invariant
            j <= n,
            a1 <= pos <= src.len(),
            at <= src.len(),
            parse_u8(src@, at as int) == Ok::<_, ParseError>((n, a1 as int)),
            parse_increasing(src@, a1 as int, j as nat, key_signature_parser(), entry_key())
                == Ok::<_, ParseError>((views(sigs@), pos as int)),
            sigs@.len() == j,
            forall|k: int| 0 <= k < sigs@.len() ==> (#[trigger] views(sigs@)[k]).1.len() <= 65535,
        decreases n - j,
    {
        let entry = read_key_signature(src, pos);
        let in_order = match &entry {
            Ok(e) => sigs.len() == 0 || sigs[sigs.len() - 1].0 < e.0.0,
            Err(_) => true,
        };
        proof {
            if sigs@.len() > 0 {
                assert(views(sigs@).last() == sigs@.last()@);
            }
            if entry is Err || !in_order {
                assert(parse_increasing(
                    src@,
                    a1 as int,
                    (j + 1) as nat,
                    key_signature_parser(),
                    entry_key(),
                ) is Err);
                lemma_parse_increasing_error(
                    src@,
                    a1 as int,
                    (j + 1) as nat,
                    n as nat,
                    key_signature_parser(),
                    entry_key(),
                );
            }
        }
        let (e, next) = entry?;
        if !in_order {
            return Err(ParseError { kind: ParseErrorKind::KeysNotInOrder, at: pos });
        }
        proof {
            lemma_views_push(sigs@, e);
            assert forall|k: int| 0 <= k < sigs@.len() + 1 implies (#[trigger] views(sigs@).push(
                e@,
            )[k]).1.len() <= 65535 by {
                if k < sigs@.len() {
                    assert(views(sigs@).push(e@)[k] == views(sigs@)[k]);
                }
            }
        }
        sigs.push(e);
        pos = next;
        j = j + 1;
    }
    proof {
        lemma_parse_increasing_is_increasing(
            src@,
            a1 as int,
            n as nat,
            key_signature_parser(),
            entry_key(),
        );
    }
    Ok((IndexMap::from_increasing(sigs), pos))
}

/// Reads the entry of a credential at offset `at`.
pub fn read_credential_entry(src: &[u8], at: usize) -> (r: ParseResult<(u8, IndexMap<Signature>)>)
    requires
        at <= src.len(),
    ensures
        reads(r, parse_credential_entry(src@, at as int), src@.len()),
        r matches Ok(p) ==> credential_signatures_wf(p.0.1@),
{
    let (index, a1) = read_u8(src, at)?;
    let (sigs, a2) = read_credential_signatures(src, a1)?;
    Ok(((index, sigs), a2))
}

impl TransactionSignature {
    /// Appends the encoding of the signature.
    pub fn serial(&self, out: &mut Vec<u8>)
        ensures
            final(out)@ == old(out)@ + enc_transaction_signature(self@),
    {
        let creds = &self.signatures;
        put_u8(out, creds.len() as u8);
        let mut i: usize = 0;
        let items = creds.entries();
        while i < creds.len()
            invariant
                lists(items@, creds@),
                i <= creds@.len(),
                out@ == old(out)@ + seq![creds@.len() as u8] + enc_many(
                    creds@.take(i as int),
                    credential_entry_encoder(),
                ),
            decreases creds@.len() - i,
        {
            put_u8(out, items[i].0);
            write_credential_signatures(items[i].1, out);
            proof {
                let e = creds@[i as int];
                assert(creds@.take(i + 1) =~= creds@.take(i as int).push(e));
                lemma_enc_many_push(creds@.take(i as int), e, credential_entry_encoder());
                assert(out@ =~= old(out)@ + seq![creds@.len() as u8] + enc_many(
                    creds@.take(i + 1),
                    credential_entry_encoder(),
                ));
            }
            i = i + 1;
        }
        proof {
            assert(creds@.take(i as int) =~= creds@);
        }
    }

    /// Reads a transaction signature at offset `at`. Indices that are not
    /// strictly increasing, at either level, are an error.
    pub fn deserial(src: &[u8], at: usize) -> (r: ParseResult<TransactionSignature>)
        requires
            at <= src.len(),
        ensures
            reads(r, parse_transaction_signature(src@, at as int), src@.len()),
            r matches Ok(p) ==> transaction_signature_wf(p.0@),
    {
        let (n, a1) = read_u8(src, at)?;
        let mut creds: Vec<(u8, IndexMap<Signature>)> = Vec::new();
        let mut pos: usize = a1;
        let mut i: u8 = 0;
        assert(views(creds@) =~= Seq::empty());
        while i < n
            invariant
                i <= n,
                pos <= src.len(),
                at <= src.len(),
                parse_u8(src@, at as int) == Ok::<_, ParseError>((n, a1 as int)),
                parse_increasing(
                    src@,
                    a1 as int,
                    i as nat,
                    credential_entry_parser(),
                    entry_key(),
                ) == Ok::<_, ParseError>((views(creds@), pos as int)),
                creds@.len() == i,
                forall|k: int|
                    0 <= k < creds@.len() ==> credential_signatures_wf(
                        (#[trigger] views(creds@)[k]).1,
                    ),
            decreases n - i,
        {
            let entry = read_credential_entry(src, pos);
            let in_order = match &entry {
                Ok(e) => creds.len() == 0 || creds[creds.len() - 1].0 < e.0.0,
                Err(_) => true,
            };
            proof {
                if creds@.len() > 0 {
                    assert(views(creds@).last() == creds@.last()@);
                }
                if entry is Err || !in_order {
                    assert(parse_increasing(
                        src@,
                        a1 as int,
                        (i + 1) as nat,
                        credential_entry_parser(),
                        entry_key(),
                    ) is Err);
                    lemma_parse_increasing_error(
                        src@,
                        a1 as int,
                        (i + 1) as nat,
                        n as nat,
                        credential_entry_parser(),
                        entry_key(),
                    );
                }
            }
            let (e, next) = entry?;
            if !in_order {
                return Err(ParseError { kind: ParseErrorKind::KeysNotInOrder, at: pos });
            }
            proof {
                lemma_views_push(creds@, e);
                assert forall|k: int| 0 <= k < creds@.len() + 1 implies credential_signatures_wf(
                    (#[trigger] views(creds@).push(e@)[k]).1,
                ) by {
                    if k < creds@.len() {
                        assert(views(creds@).push(e@)[k] == views(creds@)[k]);
                    }
                }
            }
            creds.push(e);
            pos = next;
            i = i + 1;
        }
        proof {
            lemma_parse_increasing_is_increasing(
                src@,
                a1 as int,
                n as nat,
                credential_entry_parser(),
                entry_key(),
            );
        }
        Ok((TransactionSignature { signatures: IndexMap::from_increasing(creds) }, pos))
    }
}

// ---------------------------------------------------------------------------
// Parsing what was encoded
// ---------------------------------------------------------------------------

/// The well-formed signatures of a credential are parsed from wherever the
/// input holds their encoding.
pub proof fn lemma_parse_credential_signatures(s: Seq<u8>, at: int, sigs: CredentialSignaturesView)
    requires
        credential_signatures_wf(sigs),
        has_at(s, at, enc_credential_signatures(sigs)),
    ensures
        parse_credential_signatures(s, at) == Ok::<_, ParseError>(
            (sigs, at + enc_credential_signatures(sigs).len()),
        ),
{
    lemma_be_lengths();
    lemma_has_at_concat(s, at, seq![sigs.len() as u8], enc_many(sigs, key_signature_encoder()));
    lemma_parse_u8(s, at, sigs.len() as u8);
    assert forall|a: int, j: int|
        0 <= j < sigs.len() && #[trigger] has_at(
            s,
            a,
            key_signature_encoder()(sigs[j]),
        ) implies key_signature_parser()(s, a, j) == Ok::<_, ParseError>(
        (sigs[j], a + key_signature_encoder()(sigs[j]).len()),
    ) by {
        let e = sigs[j];
        lemma_has_at_concat(s, a, seq![e.0], enc_bytes16(e.1));
        lemma_parse_u8(s, a, e.0);
        lemma_parse_bytes16(s, a + 1, e.1, 65535);
    }
    lemma_parse_increasing(
        s,
        at + 1,
        sigs,
        key_signature_encoder(),
        key_signature_parser(),
        entry_key(),
    );
}

/// A well-formed transaction signature is parsed from wherever the input
/// holds its encoding.
pub proof fn lemma_parse_transaction_signature(s: Seq<u8>, at: int, sig: TransactionSignatureView)
    requires
        transaction_signature_wf(sig),
        has_at(s, at, enc_transaction_signature(sig)),
    ensures
        parse_transaction_signature(s, at) == Ok::<_, ParseError>(
            (sig, at + enc_transaction_signature(sig).len()),
        ),
{
    lemma_has_at_concat(s, at, seq![sig.len() as u8], enc_many(sig, credential_entry_encoder()));
    lemma_parse_u8(s, at, sig.len() as u8);
    assert forall|a: int, i: int|
        0 <= i < sig.len() && #[trigger] has_at(
            s,
            a,
            credential_entry_encoder()(sig[i]),
        ) implies credential_entry_parser()(s, a, i) == Ok::<_, ParseError>(
        (sig[i], a + credential_entry_encoder()(sig[i]).len()),
    ) by {
        let e = sig[i];
        lemma_has_at_concat(s, a, seq![e.0], enc_credential_signatures(e.1));
        lemma_parse_u8(s, a, e.0);
        lemma_parse_credential_signatures(s, a + 1, e.1);
    }
    lemma_parse_increasing(
        s,
        at + 1,
        sig,
        credential_entry_encoder(),
        credential_entry_parser(),
        entry_key(),
    );
}

} // verus!
