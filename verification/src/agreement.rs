//! Two parties that run a handshake against each other agree: each message
//! that one writes the other reads, both end with the same transcript hash
//! and chaining key, and both derive the same transport keys.

use vstd::prelude::*;
use crate::cipherstate::CipherModel;
use crate::constants::{DHLEN, TAGLEN};
use crate::crypto_types::{CipherType, DhType, HashType};
use crate::handshakemodel::{
    lemma_mix_premessage_same,
    mix_premessage,
    protocol_name,
    HandshakeModel,
};
use crate::patterns::{
    keys_known,
    lemma_keys_known,
    lemma_pattern_well_formed,
    message_rows,
    premessage_initiator,
    premessage_keys_known,
    premessage_responder,
    token_keys_known,
    writes_row,
    HandshakePattern,
    Token,
};
use crate::symmetricstate::SymmetricModel;

verus! {

/// What is asked of a cipher: a ciphertext is longer than its plaintext by
/// the tag, and decrypts, under the key, nonce and associated data that it
/// was made with, to the plaintext.
pub open spec fn cipher_correct<C: CipherType>() -> bool {
    forall|key: Seq<u8>, nonce: u64, ad: Seq<u8>, plaintext: Seq<u8>|
        {
            &&& (#[trigger] C::spec_encrypt(key, nonce, ad, plaintext)).len() == plaintext.len()
                + TAGLEN
            &&& C::spec_decrypt(key, nonce, ad, C::spec_encrypt(key, nonce, ad, plaintext))
                == Some(plaintext)
        }
}

/// Whether two key pairs get the same shared secret from each other's
/// public key.
pub open spec fn dh_agree<D: DhType>(a: D, b: D) -> bool {
    a.spec_dh(b.spec_pubkey()) == b.spec_dh(a.spec_pubkey())
}

/// What is asked of the key pairs that take part in a handshake: their
/// public keys have `DHLEN` bytes, and any two of them agree on their
/// shared secret.
pub open spec fn keys_correct<D: DhType>(keys: Set<D>) -> bool {
    &&& forall|a: D| #[trigger] keys.contains(a) ==> a.spec_pubkey().len() == DHLEN
    &&& forall|a: D, b: D| #[trigger]
        keys.contains(a) && #[trigger] keys.contains(b) ==> dh_agree(a, b)
}

/// Whether the remote keys that `a` holds are the public keys of `b`. With
/// `pending`, the ephemeral key is left out: `b` has a new one that `a` has
/// yet to read.
pub open spec fn knows<D: DhType>(a: HandshakeModel<D>, b: HandshakeModel<D>, pending: bool) -> bool {
    &&& a.rs is Some ==> a.rs == Some(b.s.spec_pubkey())
    &&& !pending && a.re is Some ==> a.re == Some(b.e.spec_pubkey())
}

/// Whether a writer and a reader stand at the same place in a message:
/// they have opposite roles and the same symmetric state, each holds the
/// other's public keys as far as it holds any, and their key pairs are
/// among `keys`.
pub open spec fn paired<D: DhType>(
    writer: HandshakeModel<D>,
    reader: HandshakeModel<D>,
    keys: Set<D>,
    pending: bool,
) -> bool {
    &&& writer.initiator != reader.initiator
    &&& writer.symmetric == reader.symmetric
    &&& knows(writer, reader, false)
    &&& knows(reader, writer, pending)
    &&& keys.contains(writer.s)
    &&& keys.contains(writer.e)
    &&& keys.contains(reader.s)
    &&& keys.contains(reader.e)
}

/// The reader takes from the front of a message the field that the writer
/// put there for a token, and the two are paired again behind it.
pub proof fn lemma_token_agrees<D: DhType, H: HashType, C: CipherType>(
    writer: HandshakeModel<D>,
    reader: HandshakeModel<D>,
    token: Token,
    rest: Seq<u8>,
    keys: Set<D>,
    pending: bool,
)
    requires
        paired(writer, reader, keys, pending),
        pending ==> token == Token::E,
        keys_correct(keys),
        cipher_correct::<C>(),
        token_keys_known(token, writer.initiator, writer.rs is Some, writer.re is Some),
        token_keys_known(token, reader.initiator, reader.rs is Some, reader.re is Some),
    ensures
        ({
            let (written, field) = writer.write_token::<H, C>(token);
            &&& written == (HandshakeModel { symmetric: written.symmetric, ..writer })
            &&& reader.read_token::<H, C>(token, field + rest) matches Some((read, left))
            &&& left == rest
            &&& paired(written, read, keys, false)
            &&& read == (HandshakeModel {
                symmetric: read.symmetric,
                rs: read.rs,
                re: read.re,
                ..reader
            })
            &&& read.rs is Some == (reader.rs is Some || token == Token::S)
            &&& read.re is Some == (reader.re is Some || token == Token::E)
        }),
{
    let (written, field) = writer.write_token::<H, C>(token);
    match token {
        Token::E => {
            assert(field.len() == DHLEN);
            assert((field + rest).take(DHLEN as int) =~= field);
            assert((field + rest).skip(DHLEN as int) =~= rest);
        },
        Token::S => {
            let width = reader.symmetric.cipher.sealed_len(DHLEN as nat);
            assert(writer.s.spec_pubkey().len() == DHLEN);
            assert(field.len() == width);
            assert((field + rest).take(width as int) =~= field);
            assert((field + rest).skip(width as int) =~= rest);
        },
        Token::EE => {
            assert(dh_agree(writer.e, reader.e));
            assert(field + rest =~= rest);
        },
        Token::SS => {
            assert(dh_agree(writer.s, reader.s));
            assert(field + rest =~= rest);
        },
        Token::ES => {
            assert(dh_agree(writer.e, reader.s));
            assert(dh_agree(writer.s, reader.e));
            assert(field + rest =~= rest);
        },
        Token::SE => {
            assert(dh_agree(writer.e, reader.s));
            assert(dh_agree(writer.s, reader.e));
            assert(field + rest =~= rest);
        },
        Token::Empty => {
            assert(field + rest =~= rest);
        },
    }
}

/// The reader takes from the front of a message the fields that the writer
/// put there for the first `j` tokens of a row, and the two are paired
/// again behind them.
pub proof fn lemma_row_agrees<D: DhType, H: HashType, C: CipherType>(
    writer: HandshakeModel<D>,
    reader: HandshakeModel<D>,
    rows: Seq<Seq<Token>>,
    row: int,
    j: int,
    rest: Seq<u8>,
    keys: Set<D>,
)
    requires
        0 <= row < rows.len(),
        0 <= j <= rows[row].len(),
        paired(writer, reader, keys, rows[row].len() > 0 && rows[row][0] == Token::E),
        keys_correct(keys),
        cipher_correct::<C>(),
        writes_row(writer.initiator, row),
        keys_known(rows, row, 0, writer.initiator, writer.rs is Some, writer.re is Some),
        keys_known(rows, row, 0, reader.initiator, reader.rs is Some, reader.re is Some),
    ensures
        ({
            let tokens = rows[row].take(j);
            let (written, fields) = writer.write_tokens::<H, C>(tokens);
            &&& written == (HandshakeModel { symmetric: written.symmetric, ..writer })
            &&& reader.read_tokens::<H, C>(tokens, fields + rest) matches Some((read, left))
            &&& left == rest
            &&& paired(written, read, keys, j == 0 && rows[row].len() > 0 && rows[row][0] == Token::E)
            &&& read == (HandshakeModel {
                symmetric: read.symmetric,
                rs: read.rs,
                re: read.re,
                ..reader
            })
            &&& keys_known(rows, row, j, writer.initiator, written.rs is Some, written.re is Some)
            &&& keys_known(rows, row, j, reader.initiator, read.rs is Some, read.re is Some)
        }),
    decreases j,
{
    let tokens = rows[row];
    if j == 0 {
        assert(tokens.take(0) =~= Seq::<Token>::empty());
        assert(Seq::<u8>::empty() + rest =~= rest);
    } else {
        let token = tokens[j - 1];
        let (before, fields) = writer.write_tokens::<H, C>(tokens.take(j - 1));
        let (written, field) = before.write_token::<H, C>(token);
        lemma_row_agrees::<D, H, C>(writer, reader, rows, row, j - 1, field + rest, keys);
        let read_before = reader.read_tokens::<H, C>(
            tokens.take(j - 1),
            fields + (field + rest),
        ).unwrap().0;
        let pending = j - 1 == 0 && tokens[0] == Token::E;
        lemma_token_agrees::<D, H, C>(before, read_before, token, rest, keys, pending);
        writer.lemma_write_tokens_step::<H, C>(tokens, j - 1);
        assert((fields + field) + rest =~= fields + (field + rest));
        reader.lemma_read_tokens_step::<H, C>(tokens, j - 1, (fields + field) + rest);
    }
}

/// Whether two parties stand between the same two messages of a handshake:
/// they are paired, follow the same pattern, have processed the same
/// messages, and each knows the remote keys that the rest of the pattern
/// asks of it.
pub open spec fn in_step<D: DhType>(a: HandshakeModel<D>, b: HandshakeModel<D>, keys: Set<D>) -> bool {
    &&& paired(a, b, keys, false)
    &&& a.pattern == b.pattern
    &&& a.message_index == b.message_index
    &&& a.message_index <= a.rows().len()
    &&& a.my_turn_to_send == writes_row(a.initiator, a.message_index as int)
    &&& b.my_turn_to_send == writes_row(b.initiator, b.message_index as int)
    &&& keys_known(
        a.rows(),
        a.message_index as int,
        0,
        a.initiator,
        a.rs is Some,
        a.re is Some,
    )
    &&& keys_known(
        b.rows(),
        b.message_index as int,
        0,
        b.initiator,
        b.rs is Some,
        b.re is Some,
    )
}

/// A message that one party writes the other reads: the payload arrives,
/// the two are in step behind it, and after the last message of the
/// pattern they hold the same two transport cipher states.
pub proof fn lemma_message_agrees<D: DhType, H: HashType, C: CipherType>(
    writer: HandshakeModel<D>,
    reader: HandshakeModel<D>,
    payload: Seq<u8>,
    fresh: D,
    keys: Set<D>,
)
    requires
        in_step(writer, reader, keys),
        writer.my_turn_to_send,
        !writer.finished(),
        keys.contains(fresh),
        keys_correct(keys),
        cipher_correct::<C>(),
    ensures
        ({
            let (written, message) = writer.write_message::<H, C>(payload, fresh);
            &&& reader.read_message::<H, C>(message) matches Some((read, received))
            &&& received == payload
            &&& in_step(written, read, keys)
            &&& written.message_index == writer.message_index + 1
            &&& written.pattern == writer.pattern
            &&& writer.last() ==> written.cipher1 == read.cipher1 && written.cipher2
                == read.cipher2
        }),
{
    let rows = writer.rows();
    let row = writer.message_index as int;
    let tokens = rows[row];
    let begun = writer.begin_write(fresh);
    let (written, fields) = begun.write_tokens::<H, C>(tokens);
    let (symmetric, sealed) = written.symmetric.encrypt_and_hash::<H, C>(payload);
    lemma_row_agrees::<D, H, C>(
        begun,
        reader.begin_read(),
        rows,
        row,
        tokens.len() as int,
        sealed,
        keys,
    );
    assert(tokens.take(tokens.len() as int) =~= tokens);
}

/// Whatever stands behind the fields of a message in place of the sealed
/// payload, the reader judges it by the cipher state that the writer sealed
/// the payload with, under the writer's transcript hash, which covers the
/// prologue, every earlier message and the fields of this one. The reader
/// accepts it if and only if it decrypts there; and a reader that accepts
/// it has mixed it into its own transcript hash.
pub proof fn lemma_payload_bound_to_transcript<D: DhType, H: HashType, C: CipherType>(
    writer: HandshakeModel<D>,
    reader: HandshakeModel<D>,
    fresh: D,
    keys: Set<D>,
    altered: Seq<u8>,
)
    requires
        in_step(writer, reader, keys),
        writer.my_turn_to_send,
        !writer.finished(),
        keys.contains(fresh),
        keys_correct(keys),
        cipher_correct::<C>(),
    ensures
        ({
            let (written, fields) = writer.begin_write(fresh).write_tokens::<H, C>(writer.row());
            let sealed_under = written.symmetric;
            &&& reader.read_message::<H, C>(fields + altered) is Some
                <==> sealed_under.cipher.decrypt_with_ad::<C>(sealed_under.h, altered) is Some
            &&& reader.read_message::<H, C>(fields + altered) matches Some((read, _))
                ==> read.symmetric.h == H::spec_hash(sealed_under.h + altered)
        }),
{
    let rows = writer.rows();
    let row = writer.message_index as int;
    let tokens = rows[row];
    lemma_row_agrees::<D, H, C>(
        writer.begin_write(fresh),
        reader.begin_read(),
        rows,
        row,
        tokens.len() as int,
        altered,
        keys,
    );
    assert(tokens.take(tokens.len() as int) =~= tokens);
}

/// One message passes between two parties, from the one whose turn it is
/// to the other; `None` where the reader rejects it or gets another
/// payload than was sent.
pub open spec fn exchange<D: DhType, H: HashType, C: CipherType>(
    a: HandshakeModel<D>,
    b: HandshakeModel<D>,
    payload: Seq<u8>,
    fresh: D,
) -> Option<(HandshakeModel<D>, HandshakeModel<D>)> {
    if a.my_turn_to_send {
        let (written, message) = a.write_message::<H, C>(payload, fresh);
        match b.read_message::<H, C>(message) {
            Some((read, received)) => if received == payload {
                Some((written, read))
            } else {
                None
            },
            None => None,
        }
    } else {
        let (written, message) = b.write_message::<H, C>(payload, fresh);
        match a.read_message::<H, C>(message) {
            Some((read, received)) => if received == payload {
                Some((read, written))
            } else {
                None
            },
            None => None,
        }
    }
}

/// The messages for `payloads` pass between two parties one after the
/// other, the writer of the message `k` generating the key pair
/// `fresh[k]` where its row begins with `E`.
pub open spec fn run<D: DhType, H: HashType, C: CipherType>(
    a: HandshakeModel<D>,
    b: HandshakeModel<D>,
    payloads: Seq<Seq<u8>>,
    fresh: Seq<D>,
) -> Option<(HandshakeModel<D>, HandshakeModel<D>)>
    decreases payloads.len(),
{
    if payloads.len() == 0 {
        Some((a, b))
    } else {
        match exchange::<D, H, C>(a, b, payloads[0], fresh[0]) {
            Some((a1, b1)) => run::<D, H, C>(a1, b1, payloads.drop_first(), fresh.drop_first()),
            None => None,
        }
    }
}

/// Two parties in step run the rest of their pattern to its end: every
/// message is read with the payload that was sent, and at the end both
/// hold the same transcript hash, chaining key and transport cipher
/// states.
pub proof fn lemma_run_agrees<D: DhType, H: HashType, C: CipherType>(
    a: HandshakeModel<D>,
    b: HandshakeModel<D>,
    payloads: Seq<Seq<u8>>,
    fresh: Seq<D>,
    keys: Set<D>,
)
    requires
        in_step(a, b, keys),
        payloads.len() == fresh.len(),
        a.message_index + payloads.len() == a.rows().len(),
        forall|k: int| 0 <= k < fresh.len() ==> keys.contains(#[trigger] fresh[k]),
        keys_correct(keys),
        cipher_correct::<C>(),
    ensures
        run::<D, H, C>(a, b, payloads, fresh) matches Some((a1, b1)) && {
            &&& in_step(a1, b1, keys)
            &&& a1.finished()
            &&& b1.finished()
            &&& a1.symmetric.h == b1.symmetric.h
            &&& a1.symmetric.ck == b1.symmetric.ck
            &&& payloads.len() > 0 ==> a1.cipher1 == b1.cipher1 && a1.cipher2 == b1.cipher2
        },
    decreases payloads.len(),
{
    if payloads.len() > 0 {
        assert(keys.contains(fresh[0]));
        if a.my_turn_to_send {
            lemma_message_agrees::<D, H, C>(a, b, payloads[0], fresh[0], keys);
        } else {
            lemma_message_agrees::<D, H, C>(b, a, payloads[0], fresh[0], keys);
        }
        let (a1, b1) = exchange::<D, H, C>(a, b, payloads[0], fresh[0]).unwrap();
        let rest = fresh.drop_first();
        assert forall|k: int| 0 <= k < rest.len() implies keys.contains(#[trigger] rest[k]) by {
            assert(keys.contains(fresh[k + 1]));
        }
        assert(a1.rows() == a.rows());
        lemma_run_agrees::<D, H, C>(a1, b1, payloads.drop_first(), rest, keys);
    }
}

/// Whether the remote keys that a party is given at the start, as far as
/// it is given any, are the public keys of the other party.
pub open spec fn given_keys_match<D: DhType>(
    rs: Option<Seq<u8>>,
    re: Option<Seq<u8>>,
    other_s: D,
    other_e: D,
) -> bool {
    &&& rs is Some ==> rs == Some(other_s.spec_pubkey())
    &&& re is Some ==> re == Some(other_e.spec_pubkey())
}

/// Round trip. An initiator and a responder that start the same pattern
/// with the same prologue and pre-shared key, each given the other's
/// public keys where the pattern asks for them, start with the same
/// transcript hash; every message that one writes the other reads, with
/// the payload that was sent; and both end with the same transcript hash,
/// the same chaining key and the same two transport cipher states.
pub proof fn lemma_round_trip<D: DhType, H: HashType, C: CipherType>(
    pattern: HandshakePattern,
    prologue: Seq<u8>,
    psk: Option<Seq<u8>>,
    initiator_keys: (D, D),
    initiator_remote: (Option<Seq<u8>>, Option<Seq<u8>>),
    initiator_ciphers: (CipherModel, CipherModel),
    responder_keys: (D, D),
    responder_remote: (Option<Seq<u8>>, Option<Seq<u8>>),
    responder_ciphers: (CipherModel, CipherModel),
    payloads: Seq<Seq<u8>>,
    fresh: Seq<D>,
    keys: Set<D>,
)
    requires
        premessage_keys_known(
            premessage_responder(pattern),
            initiator_remote.0 is Some,
            initiator_remote.1 is Some,
        ),
        premessage_keys_known(
            premessage_initiator(pattern),
            responder_remote.0 is Some,
            responder_remote.1 is Some,
        ),
        given_keys_match(initiator_remote.0, initiator_remote.1, responder_keys.0, responder_keys.1),
        given_keys_match(responder_remote.0, responder_remote.1, initiator_keys.0, initiator_keys.1),
        payloads.len() == message_rows(pattern).len(),
        fresh.len() == message_rows(pattern).len(),
        keys.contains(initiator_keys.0),
        keys.contains(initiator_keys.1),
        keys.contains(responder_keys.0),
        keys.contains(responder_keys.1),
        forall|k: int| 0 <= k < fresh.len() ==> keys.contains(#[trigger] fresh[k]),
        keys_correct(keys),
        cipher_correct::<C>(),
    ensures
        ({
            let a = HandshakeModel::<D>::initial::<H, C>(
                pattern,
                true,
                prologue,
                psk,
                initiator_keys.0,
                initiator_keys.1,
                initiator_remote.0,
                initiator_remote.1,
                initiator_ciphers.0,
                initiator_ciphers.1,
            );
            let b = HandshakeModel::<D>::initial::<H, C>(
                pattern,
                false,
                prologue,
                psk,
                responder_keys.0,
                responder_keys.1,
                responder_remote.0,
                responder_remote.1,
                responder_ciphers.0,
                responder_ciphers.1,
            );
            &&& a.symmetric == b.symmetric
            &&& run::<D, H, C>(a, b, payloads, fresh) matches Some((a1, b1))
            &&& a1.finished()
            &&& b1.finished()
            &&& a1.symmetric.h == b1.symmetric.h
            &&& a1.symmetric.ck == b1.symmetric.ck
            &&& a1.cipher1 == b1.cipher1
            &&& a1.cipher2 == b1.cipher2
        }),
{
    let a = HandshakeModel::<D>::initial::<H, C>(
        pattern,
        true,
        prologue,
        psk,
        initiator_keys.0,
        initiator_keys.1,
        initiator_remote.0,
        initiator_remote.1,
        initiator_ciphers.0,
        initiator_ciphers.1,
    );
    let b = HandshakeModel::<D>::initial::<H, C>(
        pattern,
        false,
        prologue,
        psk,
        responder_keys.0,
        responder_keys.1,
        responder_remote.0,
        responder_remote.1,
        responder_ciphers.0,
        responder_ciphers.1,
    );
    lemma_pattern_well_formed(pattern);
    lemma_keys_known(pattern, true, initiator_remote.0 is Some, initiator_remote.1 is Some);
    lemma_keys_known(pattern, false, responder_remote.0 is Some, responder_remote.1 is Some);
    let named = SymmetricModel::initialize::<H>(protocol_name::<D, H, C>(pattern, psk is Some));
    let mixed = named.mix_hash::<H>(prologue);
    let keyed = match psk {
        Some(key) => mixed.mix_preshared_key::<H>(key),
        None => mixed,
    };
    lemma_mix_premessage_same::<H>(
        keyed,
        premessage_initiator(pattern),
        Some(initiator_keys.0.spec_pubkey()),
        Some(initiator_keys.1.spec_pubkey()),
        responder_remote.0,
        responder_remote.1,
    );
    let first = mix_premessage::<H>(
        keyed,
        premessage_initiator(pattern),
        responder_remote.0,
        responder_remote.1,
    );
    lemma_mix_premessage_same::<H>(
        first,
        premessage_responder(pattern),
        initiator_remote.0,
        initiator_remote.1,
        Some(responder_keys.0.spec_pubkey()),
        Some(responder_keys.1.spec_pubkey()),
    );
    assert(a.symmetric == b.symmetric);
    lemma_run_agrees::<D, H, C>(a, b, payloads, fresh, keys);
}

} // verus!
