//! The handshake state: one party's side of one handshake.

use vstd::prelude::*;
use vstd::slice::slice_subrange;
use crate::cipherstate::CipherState;
pub use crate::constants::MAXMSGLEN;
use crate::constants::{DHLEN, TAGLEN};
use crate::crypto_types::{CipherType, DhType, HashType, RandomType};
use crate::handshakemodel::{
    fields_len,
    joined_name,
    keyed_after,
    lemma_fields_len_step,
    lemma_mix_premessage,
    mix_premessage,
    prefix_plain,
    prefix_psk,
    token_len,
    HandshakeModel,
};
use crate::patterns::{
    keys_known,
    lemma_keys_known,
    lemma_pattern_well_formed,
    matrix_holds,
    message_rows,
    padded,
    pattern_name,
    premessage_initiator,
    premessage_keys_known,
    premessage_remote,
    premessage_responder,
    premessage_well_formed,
    resolve_handshake_pattern,
    row_tokens,
    row_well_formed,
    token_keys_known,
    writes_row,
    HandshakePattern,
    Token,
    PATTERN_WIDTH,
    PREMESSAGE_WIDTH,
};
use crate::symmetricstate::SymmetricState;
use crate::utils::{copy_memory, to_array32};

verus! {

/// The one failure that a handshake reports.
#[derive(Clone, Copy, Debug, PartialEq, Eq, Structural)]
pub enum NoiseError {
    /// A field of a message or its payload did not authenticate, or the
    /// message was too short for its fields.
    DecryptError,
}

/// The bytes of an optional public key.
pub open spec fn key_bytes(key: Option<[u8; DHLEN]>) -> Option<Seq<u8>> {
    match key {
        Some(bytes) => Some(bytes@),
        None => None,
    }
}

/// The bytes of an optional slice.
pub open spec fn slice_bytes(key: Option<&[u8]>) -> Option<Seq<u8>> {
    match key {
        Some(bytes) => Some(bytes@),
        None => None,
    }
}

/// One party's side of a handshake. It owns the random source, the
/// symmetric state, the two cipher states that receive the transport keys
/// and the ephemeral key pair, and hands them back through `into_parts`
/// when the handshake is over; the static key pair it borrows.
pub struct HandshakeState<'a, D: DhType, H: HashType, C: CipherType, R: RandomType> {
    symmetricstate: SymmetricState<H, C>,
    cipherstate1: CipherState<C>,
    cipherstate2: CipherState<C>,
    s: &'a D,
    e: D,
    rs: Option<[u8; DHLEN]>,
    re: Option<[u8; DHLEN]>,
    initiator: bool,
    my_turn_to_send: bool,
    pattern: HandshakePattern,
    message_patterns: [[Token; PATTERN_WIDTH]; PATTERN_WIDTH],
    message_index: usize,
    rng: R,
}

impl<'a, D: DhType, H: HashType, C: CipherType, R: RandomType> View for HandshakeState<
    'a,
    D,
    H,
    C,
    R,
> {
    type V = HandshakeModel<D>;

    closed spec fn view(&self) -> HandshakeModel<D> {
        HandshakeModel {
            symmetric: self.symmetricstate@,
            cipher1: self.cipherstate1@,
            cipher2: self.cipherstate2@,
            s: *self.s,
            e: self.e,
            rs: key_bytes(self.rs),
            re: key_bytes(self.re),
            initiator: self.initiator,
            my_turn_to_send: self.my_turn_to_send,
            pattern: self.pattern,
            message_index: self.message_index as nat,
        }
    }
}

/// Mixes the public keys that a pre-message row names into the transcript
/// hash.
fn mix_premessage_row<H: HashType, C: CipherType>(
    symmetricstate: &mut SymmetricState<H, C>,
    row: &[Token; PREMESSAGE_WIDTH],
    Ghost(tokens): Ghost<Seq<Token>>,
    static_key: Option<[u8; DHLEN]>,
    ephemeral_key: Option<[u8; DHLEN]>,
)
    requires
        old(symmetricstate).wf(),
        row@ == padded(tokens, PREMESSAGE_WIDTH as nat),
        premessage_well_formed(tokens),
        premessage_keys_known(tokens, static_key is Some, ephemeral_key is Some),
    ensures
        final(symmetricstate).wf(),
        final(symmetricstate)@ == mix_premessage::<H>(
            old(symmetricstate)@,
            tokens,
            key_bytes(static_key),
            key_bytes(ephemeral_key),
        ),
{
    let mut j: usize = 0;
    proof {
        assert(tokens.take(0) =~= Seq::<Token>::empty());
    }
    while j < PREMESSAGE_WIDTH && row[j] != Token::Empty
        invariant
            j <= tokens.len() <= PREMESSAGE_WIDTH,
            row@ == padded(tokens, PREMESSAGE_WIDTH as nat),
            premessage_well_formed(tokens),
            premessage_keys_known(tokens, static_key is Some, ephemeral_key is Some),
            symmetricstate.wf(),
            symmetricstate@ == mix_premessage::<H>(
                old(symmetricstate)@,
                tokens.take(j as int),
                key_bytes(static_key),
                key_bytes(ephemeral_key),
            ),
        decreases PREMESSAGE_WIDTH - j,
    {
        proof {
            assert(row@[j as int] == padded(tokens, PREMESSAGE_WIDTH as nat)[j as int]);
            assert(j < tokens.len());
            assert(tokens.take(j + 1).drop_last() =~= tokens.take(j as int));
            assert(tokens.take(j + 1).last() == tokens[j as int]);
            assert(tokens[j as int] == Token::S || tokens[j as int] == Token::E);
        }
        match row[j] {
            Token::S => {
                let key = static_key.unwrap();
                symmetricstate.mix_hash(&key);
            },
            Token::E => {
                let key = ephemeral_key.unwrap();
                symmetricstate.mix_hash(&key);
            },
            _ => {},
        }
        j += 1;
    }
    proof {
        if j < PREMESSAGE_WIDTH {
            assert(row@[j as int] == padded(tokens, PREMESSAGE_WIDTH as nat)[j as int]);
            if j < tokens.len() {
                assert(tokens[j as int] == Token::S || tokens[j as int] == Token::E);
            }
        }
        assert(j == tokens.len());
        assert(tokens.take(j as int) =~= tokens);
    }
}

/// Puts a protocol name together from its parts.
pub fn handshake_name(
    pattern_name: &[u8],
    has_psk: bool,
    dh_name: &[u8],
    hash_name: &[u8],
    cipher_name: &[u8],
) -> (out: Vec<u8>)
    ensures
        out@ == joined_name(has_psk, pattern_name@, dh_name@, hash_name@, cipher_name@),
{
    let mut out: Vec<u8> = if has_psk {
        vec![
            'N' as u8,
            'o' as u8,
            'i' as u8,
            's' as u8,
            'e' as u8,
            'P' as u8,
            'S' as u8,
            'K' as u8,
            '_' as u8,
        ]
    } else {
        vec!['N' as u8, 'o' as u8, 'i' as u8, 's' as u8, 'e' as u8, '_' as u8]
    };
    proof {
        if has_psk {
            assert(out@ =~= prefix_psk());
        } else {
            assert(out@ =~= prefix_plain());
        }
    }
    out.extend_from_slice(pattern_name);
    out.push('_' as u8);
    out.extend_from_slice(dh_name);
    out.push('_' as u8);
    out.extend_from_slice(hash_name);
    out.push('_' as u8);
    out.extend_from_slice(cipher_name);
    proof {
        assert(out@ =~= joined_name(has_psk, pattern_name@, dh_name@, hash_name@, cipher_name@));
    }
    out
}

/// Mixes the pre-message keys of both parties into the transcript hash,
/// the initiator's row before the responder's.
fn mix_premessages<H: HashType, C: CipherType>(
    symmetricstate: &mut SymmetricState<H, C>,
    Ghost(pattern): Ghost<HandshakePattern>,
    premsg_pattern_i: &[Token; PREMESSAGE_WIDTH],
    premsg_pattern_r: &[Token; PREMESSAGE_WIDTH],
    initiator: bool,
    local_s: [u8; DHLEN],
    local_e: [u8; DHLEN],
    rs: Option<[u8; DHLEN]>,
    re: Option<[u8; DHLEN]>,
)
    requires
        old(symmetricstate).wf(),
        premsg_pattern_i@ == padded(premessage_initiator(pattern), PREMESSAGE_WIDTH as nat),
        premsg_pattern_r@ == padded(premessage_responder(pattern), PREMESSAGE_WIDTH as nat),
        premessage_keys_known(premessage_remote(pattern, initiator), rs is Some, re is Some),
    ensures
        final(symmetricstate).wf(),
        final(symmetricstate)@.cipher == old(symmetricstate)@.cipher,
        final(symmetricstate)@ == if initiator {
            mix_premessage::<H>(
                mix_premessage::<H>(
                    old(symmetricstate)@,
                    premessage_initiator(pattern),
                    Some(local_s@),
                    Some(local_e@),
                ),
                premessage_responder(pattern),
                key_bytes(rs),
                key_bytes(re),
            )
        } else {
            mix_premessage::<H>(
                mix_premessage::<H>(
                    old(symmetricstate)@,
                    premessage_initiator(pattern),
                    key_bytes(rs),
                    key_bytes(re),
                ),
                premessage_responder(pattern),
                Some(local_s@),
                Some(local_e@),
            )
        },
{
    proof {
        lemma_pattern_well_formed(pattern);
    }
    let ghost start = symmetricstate@;
    if initiator {
        mix_premessage_row(
            symmetricstate,
            premsg_pattern_i,
            Ghost(premessage_initiator(pattern)),
            Some(local_s),
            Some(local_e),
        );
        let ghost first = symmetricstate@;
        mix_premessage_row(
            symmetricstate,
            premsg_pattern_r,
            Ghost(premessage_responder(pattern)),
            rs,
            re,
        );
        proof {
            lemma_mix_premessage::<H>(
                start,
                premessage_initiator(pattern),
                Some(local_s@),
                Some(local_e@),
            );
            lemma_mix_premessage::<H>(
                first,
                premessage_responder(pattern),
                key_bytes(rs),
                key_bytes(re),
            );
        }
    } else {
        mix_premessage_row(
            symmetricstate,
            premsg_pattern_i,
            Ghost(premessage_initiator(pattern)),
            rs,
            re,
        );
        let ghost first = symmetricstate@;
        mix_premessage_row(
            symmetricstate,
            premsg_pattern_r,
            Ghost(premessage_responder(pattern)),
            Some(local_s),
            Some(local_e),
        );
        proof {
            lemma_mix_premessage::<H>(
                start,
                premessage_initiator(pattern),
                key_bytes(rs),
                key_bytes(re),
            );
            lemma_mix_premessage::<H>(
                first,
                premessage_responder(pattern),
                Some(local_s@),
                Some(local_e@),
            );
        }
    }
}

impl<'a, D: DhType, H: HashType, C: CipherType, R: RandomType> HandshakeState<'a, D, H, C, R> {
    /// Whether the state is as the matrix of the pattern and the symmetric
    /// state need it.
    pub closed spec fn repr(&self) -> bool {
        &&& self.symmetricstate.wf()
        &&& matrix_holds(self.message_patterns, message_rows(self.pattern))
    }

    /// Whether the state is one that `new` made and the messages since have
    /// kept: see `HandshakeModel::wf`.
    pub closed spec fn wf(&self) -> bool {
        &&& self.repr()
        &&& self@.wf()
    }

    /// A well-formed state has a well-formed model.
    pub proof fn lemma_wf(&self)
        requires
            self.wf(),
        ensures
            self@.wf(),
    {
    }

    /// Starts a handshake. The protocol name is put together and the
    /// symmetric state initialised with it; the prologue, the pre-shared
    /// key if there is one, and the pre-message public keys, the
    /// initiator's before the responder's, are mixed in. The remote keys
    /// that the other party's pre-message row names must be given.
    pub fn new(
        rng: R,
        symmetricstate: SymmetricState<H, C>,
        cipherstate1: CipherState<C>,
        cipherstate2: CipherState<C>,
        handshake_pattern: HandshakePattern,
        initiator: bool,
        prologue: &[u8],
        optional_preshared_key: Option<&[u8]>,
        s: &'a D,
        e: D,
        rs: Option<[u8; DHLEN]>,
        re: Option<[u8; DHLEN]>,
    ) -> (out: HandshakeState<'a, D, H, C, R>)
        requires
            premessage_keys_known(
                premessage_remote(handshake_pattern, initiator),
                rs is Some,
                re is Some,
            ),
        ensures
            out.wf(),
            out@ == HandshakeModel::<D>::initial::<H, C>(
                handshake_pattern,
                initiator,
                prologue@,
                slice_bytes(optional_preshared_key),
                *s,
                e,
                key_bytes(rs),
                key_bytes(re),
                cipherstate1@,
                cipherstate2@,
            ),
    {
        let mut symmetricstate = symmetricstate;
        let mut name_buffer = [0u8; 2];
        let mut premsg_pattern_i = [Token::Empty, Token::Empty];
        let mut premsg_pattern_r = [Token::Empty, Token::Empty];
        let mut message_patterns = [[Token::Empty; PATTERN_WIDTH]; PATTERN_WIDTH];
        let pattern_name_len = resolve_handshake_pattern(
            handshake_pattern,
            &mut name_buffer,
            &mut premsg_pattern_i,
            &mut premsg_pattern_r,
            &mut message_patterns,
        );
        proof {
            assert(name_buffer@.subrange(0, pattern_name_len as int) =~= pattern_name(
                handshake_pattern,
            ));
        }
        let dh_name = s.name();
        let hash_name = symmetricstate.hash_name();
        let cipher_name = symmetricstate.cipher_name();
        let name = handshake_name(
            slice_subrange(&name_buffer, 0, pattern_name_len),
            optional_preshared_key.is_some(),
            dh_name.as_slice(),
            hash_name.as_slice(),
            cipher_name.as_slice(),
        );
        symmetricstate.initialize(name.as_slice());
        symmetricstate.mix_hash(prologue);
        if let Some(preshared_key) = optional_preshared_key {
            symmetricstate.mix_preshared_key(preshared_key);
        }
        mix_premessages(
            &mut symmetricstate,
            Ghost(handshake_pattern),
            &premsg_pattern_i,
            &premsg_pattern_r,
            initiator,
            s.pubkey(),
            e.pubkey(),
            rs,
            re,
        );
        proof {
            lemma_keys_known(handshake_pattern, initiator, rs is Some, re is Some);
        }
        HandshakeState {
            symmetricstate,
            cipherstate1,
            cipherstate2,
            s,
            e,
            rs,
            re,
            initiator,
            my_turn_to_send: initiator,
            pattern: handshake_pattern,
            message_patterns,
            message_index: 0,
            rng,
        }
    }
    /// The shared secret of one Diffie-Hellman token is mixed into the
    /// chaining key.
    fn mix_dh(&mut self, token: Token)
        requires
            old(self).repr(),
            token == Token::EE || token == Token::ES || token == Token::SE || token == Token::SS,
            token_keys_known(token, old(self)@.initiator, old(self)@.rs is Some, old(self)@.re is Some),
        ensures
            final(self).repr(),
            final(self).message_patterns == old(self).message_patterns,
            final(self)@ == (HandshakeModel {
                symmetric: old(self)@.symmetric.mix_key::<H>(old(self)@.dh(token)),
                ..old(self)@
            }),
    {
        let secret = match token {
            Token::EE => self.e.dh(&self.re.unwrap()),
            Token::SS => self.s.dh(&self.rs.unwrap()),
            Token::ES => if self.initiator {
                self.e.dh(&self.rs.unwrap())
            } else {
                self.s.dh(&self.re.unwrap())
            },
            _ => if self.initiator {
                self.s.dh(&self.re.unwrap())
            } else {
                self.e.dh(&self.rs.unwrap())
            },
        };
        self.symmetricstate.mix_key(&secret);
    }

    /// Processes one token of a message that is written: its field is
    /// appended to `out`. For `E` a new ephemeral key pair is generated.
    fn write_token(&mut self, token: Token, out: &mut Vec<u8>)
        requires
            old(self).repr(),
            old(self)@.symmetric.cipher.usable(),
            token_keys_known(token, old(self)@.initiator, old(self)@.rs is Some, old(self)@.re is Some),
        ensures
            final(self).repr(),
            final(self).message_patterns == old(self).message_patterns,
            token != Token::E ==> final(self)@.e == old(self)@.e,
            final(self)@ == (HandshakeModel { e: final(self)@.e, ..old(self)@ }).write_token::<
                H,
                C,
            >(token).0,
            final(out)@ == old(out)@ + (HandshakeModel {
                e: final(self)@.e,
                ..old(self)@
            }).write_token::<H, C>(token).1,
            final(out)@.len() == old(out)@.len() + token_len(
                token,
                old(self)@.symmetric.has_key(),
            ),
            final(self)@.symmetric.has_key() == keyed_after(
                token,
                old(self)@.symmetric.has_key(),
                old(self)@.symmetric.has_preshared_key,
            ),
            final(self)@.symmetric.has_preshared_key == old(self)@.symmetric.has_preshared_key,
            final(self)@.symmetric.cipher.nonce <= old(self)@.symmetric.cipher.nonce + 1,
    {
        match token {
            Token::E => {
                self.e.generate(&mut self.rng);
                let pubkey = self.e.pubkey();
                out.extend_from_slice(&pubkey);
                self.symmetricstate.mix_hash(&pubkey);
                if self.symmetricstate.has_preshared_key() {
                    self.symmetricstate.mix_key(&pubkey);
                }
            },
            Token::S => {
                let pubkey = self.s.pubkey();
                let field = self.symmetricstate.encrypt_and_hash(&pubkey);
                out.extend_from_slice(field.as_slice());
            },
            Token::EE | Token::ES | Token::SE | Token::SS => {
                self.mix_dh(token);
                proof {
                    assert(out@ =~= old(out)@ + Seq::<u8>::empty());
                }
            },
            Token::Empty => {
                proof {
                    assert(out@ =~= old(out)@ + Seq::<u8>::empty());
                }
            },
        }
    }
    /// Writes the next handshake message for `payload` to the front of
    /// `message`. Returns the length of the message and whether it was the
    /// last of the pattern, in which case the two cipher states hold the
    /// transport keys.
    ///
    /// It must be this party's turn, the handshake must not be over, and
    /// the message must fit in `MAXMSGLEN` bytes and in `message`.
    pub fn write_message(&mut self, payload: &[u8], message: &mut [u8]) -> (out: (usize, bool))
        requires
            old(self).wf(),
            !old(self)@.finished(),
            old(self)@.my_turn_to_send,
            payload@.len() + old(self)@.overhead() <= MAXMSGLEN,
            payload@.len() + old(self)@.overhead() <= old(message)@.len(),
        ensures
            final(self).wf(),
            out.0 == payload@.len() + old(self)@.overhead(),
            out.1 == old(self)@.last(),
            !final(self)@.my_turn_to_send,
            final(self)@.message_index == old(self)@.message_index + 1,
            final(self)@.initiator == old(self)@.initiator,
            final(self)@.pattern == old(self)@.pattern,
            final(self)@ == old(self)@.write_message::<H, C>(payload@, final(self)@.e).0,
            final(message)@.take(out.0 as int) == old(self)@.write_message::<H, C>(
                payload@,
                final(self)@.e,
            ).1,
            final(message)@.skip(out.0 as int) == old(message)@.skip(out.0 as int),
    {
        let ghost start = self@;
        let ghost rows = start.rows();
        let ghost row = start.row();
        proof {
            lemma_pattern_well_formed(self.pattern);
            assert(row_well_formed(rows[start.message_index as int]));
        }
        let tokens = self.message_patterns[self.message_index];
        let next = self.message_patterns[self.message_index + 1];
        let last = match next[0] {
            Token::Empty => true,
            _ => false,
        };
        proof {
            assert(tokens@ == padded(row, PATTERN_WIDTH as nat));
            let after = row_tokens(rows, (start.message_index + 1) as int);
            assert(next@[0] == padded(after, PATTERN_WIDTH as nat)[0]);
            if start.message_index + 1 < rows.len() {
                assert(row_well_formed(rows[(start.message_index + 1) as int]));
            }
            assert(last == start.last());
            assert(row.take(0) =~= Seq::<Token>::empty());
        }
        self.message_index += 1;
        let mut fields: Vec<u8> = Vec::new();
        let mut j: usize = 0;
        while j < PATTERN_WIDTH && tokens[j] != Token::Empty
            invariant
                j <= row.len() < PATTERN_WIDTH,
                rows == start.rows(),
                row == start.row(),
                row == rows[start.message_index as int],
                start.message_index < rows.len() < PATTERN_WIDTH,
                row_well_formed(row),
                writes_row(start.initiator, start.message_index as int),
                tokens@ == padded(row, PATTERN_WIDTH as nat),
                self.repr(),
                self@ == start.begin_write(self@.e).write_tokens::<H, C>(row.take(j as int)).0,
                fields@ == start.begin_write(self@.e).write_tokens::<H, C>(row.take(j as int)).1,
                self@ == (HandshakeModel {
                    symmetric: self@.symmetric,
                    e: self@.e,
                    message_index: start.message_index + 1,
                    ..start
                }),
                row[0] != Token::E || j == 0 ==> self@.e == start.e,
                keys_known(
                    rows,
                    start.message_index as int,
                    j as int,
                    start.initiator,
                    start.rs is Some,
                    start.re is Some,
                ),
                self@.symmetric.cipher.nonce <= 16 * start.message_index + j,
                fields@.len() == fields_len(
                    row.take(j as int),
                    start.symmetric.has_key(),
                    start.symmetric.has_preshared_key,
                ).0,
                self@.symmetric.has_key() == fields_len(
                    row.take(j as int),
                    start.symmetric.has_key(),
                    start.symmetric.has_preshared_key,
                ).1,
                self@.symmetric.has_preshared_key == start.symmetric.has_preshared_key,
            decreases PATTERN_WIDTH - j,
        {
            let ghost before = self@;
            proof {
                assert(tokens@[j as int] == padded(row, PATTERN_WIDTH as nat)[j as int]);
                assert(j < row.len());
                assert(tokens@[j as int] == row[j as int]);
            }
            self.write_token(tokens[j], &mut fields);
            proof {
                let token = row[j as int];
                let base = start.begin_write(self@.e);
                base.lemma_write_tokens_step::<H, C>(row, j as int);
                lemma_fields_len_step(
                    row,
                    j as int,
                    start.symmetric.has_key(),
                    start.symmetric.has_preshared_key,
                );
                if token == Token::E {
                    assert(j == 0);
                    assert(row.take(0) =~= Seq::<Token>::empty());
                    assert((HandshakeModel { e: self@.e, ..before }) == base);
                } else {
                    assert((HandshakeModel { e: self@.e, ..before }) == before);
                    assert(base == start.begin_write(before.e));
                }
            }
            j += 1;
        }
        proof {
            if j < PATTERN_WIDTH {
                assert(tokens@[j as int] == padded(row, PATTERN_WIDTH as nat)[j as int]);
            }
            assert(j == row.len());
            assert(row.take(j as int) =~= row);
        }
        let sealed = self.symmetricstate.encrypt_and_hash(payload);
        fields.extend_from_slice(sealed.as_slice());
        self.my_turn_to_send = false;
        if last {
            self.symmetricstate.split(&mut self.cipherstate1, &mut self.cipherstate2);
        }
        let written = copy_memory(fields.as_slice(), message);
        proof {

            assert(message@.take(written as int) =~= fields@);
            assert(message@.skip(written as int) =~= old(message)@.skip(written as int));
        }
        (written, last)
    }
    /// Processes one token of a message that is read: its field is taken
    /// from `message` at `cursor`. Returns the place behind the field, or
    /// `None`, with the state unchanged, where the field is cut short or
    /// does not authenticate.
    fn read_token(&mut self, token: Token, message: &[u8], cursor: usize) -> (out: Option<usize>)
        requires
            old(self).repr(),
            old(self)@.symmetric.cipher.usable(),
            cursor <= message@.len(),
            token_keys_known(token, old(self)@.initiator, old(self)@.rs is Some, old(self)@.re is Some),
        ensures
            final(self).repr(),
            final(self).message_patterns == old(self).message_patterns,
            match out {
                Some(next) => {
                    &&& old(self)@.read_token::<H, C>(token, message@.skip(cursor as int)) == Some(
                        (final(self)@, message@.skip(next as int)),
                    )
                    &&& next == cursor + token_len(token, old(self)@.symmetric.has_key())
                    &&& next <= message@.len()
                    &&& final(self)@ == (HandshakeModel {
                        symmetric: final(self)@.symmetric,
                        rs: final(self)@.rs,
                        re: final(self)@.re,
                        ..old(self)@
                    })
                    &&& final(self)@.rs is Some == (old(self)@.rs is Some || token == Token::S)
                    &&& final(self)@.re is Some == (old(self)@.re is Some || token == Token::E)
                    &&& final(self)@.symmetric.has_key() == keyed_after(
                        token,
                        old(self)@.symmetric.has_key(),
                        old(self)@.symmetric.has_preshared_key,
                    )
                    &&& final(self)@.symmetric.has_preshared_key
                        == old(self)@.symmetric.has_preshared_key
                    &&& final(self)@.symmetric.cipher.nonce <= old(self)@.symmetric.cipher.nonce
                        + 1
                },
                None => {
                    &&& old(self)@.read_token::<H, C>(token, message@.skip(cursor as int)) is None
                    &&& final(self)@ == old(self)@
                },
            },
    {
        let ghost input = message@.skip(cursor as int);
        match token {
            Token::E => {
                if message.len() - cursor < DHLEN {
                    return None;
                }
                let pubkey = to_array32(slice_subrange(message, cursor, cursor + DHLEN));
                proof {
                    assert(pubkey@ =~= input.take(DHLEN as int));
                    assert(message@.skip(cursor + DHLEN) =~= input.skip(DHLEN as int));
                }
                self.re = Some(pubkey);
                self.symmetricstate.mix_hash(&pubkey);
                if self.symmetricstate.has_preshared_key() {
                    self.symmetricstate.mix_key(&pubkey);
                }
                Some(cursor + DHLEN)
            },
            Token::S => {
                let width = if self.symmetricstate.has_key() {
                    DHLEN + TAGLEN
                } else {
                    DHLEN
                };
                if message.len() - cursor < width {
                    return None;
                }
                let field = slice_subrange(message, cursor, cursor + width);
                proof {
                    assert(field@ =~= input.take(width as int));
                    assert(message@.skip(cursor + width) =~= input.skip(width as int));
                }
                match self.symmetricstate.decrypt_and_hash(field) {
                    Some(plaintext) => {
                        let pubkey = to_array32(plaintext.as_slice());
                        self.rs = Some(pubkey);
                        Some(cursor + width)
                    },
                    None => None,
                }
            },
            Token::EE | Token::ES | Token::SE | Token::SS => {
                self.mix_dh(token);
                Some(cursor)
            },
            Token::Empty => Some(cursor),
        }
    }

    /// Reads the next handshake message and writes its payload to the front
    /// of `payload`. Returns the length of the payload and whether the
    /// message was the last of the pattern, in which case the two cipher
    /// states hold the transport keys. `DecryptError` says that the message
    /// was too short for its fields, or that a field or the payload did not
    /// authenticate; the handshake is then over, the cipher states and
    /// `payload` are as they were.
    ///
    /// It must be the other party's turn, the handshake must not be over,
    /// the message must not be longer than `MAXMSGLEN`, and `payload` must
    /// have room for what the message can hold.
    pub fn read_message(&mut self, message: &[u8], payload: &mut [u8]) -> (out: Result<
        (usize, bool),
        NoiseError,
    >)
        requires
            old(self).wf(),
            !old(self)@.finished(),
            !old(self)@.my_turn_to_send,
            message@.len() <= MAXMSGLEN,
            message@.len() <= old(payload)@.len() + old(self)@.overhead(),
        ensures
            match out {
                Ok((len, last)) => {
                    &&& final(self).wf()
                    &&& old(self)@.read_message::<H, C>(message@) == Some(
                        (final(self)@, final(payload)@.take(len as int)),
                    )
                    &&& len + old(self)@.overhead() == message@.len()
                    &&& last == old(self)@.last()
                    &&& final(self)@.my_turn_to_send
                    &&& final(self)@.message_index == old(self)@.message_index + 1
                    &&& final(self)@.initiator == old(self)@.initiator
                    &&& final(self)@.pattern == old(self)@.pattern
                    &&& final(payload)@.skip(len as int) == old(payload)@.skip(len as int)
                },
                Err(_) => {
                    &&& old(self)@.read_message::<H, C>(message@) is None
                    &&& final(self)@.cipher1 == old(self)@.cipher1
                    &&& final(self)@.cipher2 == old(self)@.cipher2
                    &&& final(payload)@ == old(payload)@
                },
            },
    {
        let ghost start = self@;
        let ghost rows = start.rows();
        let ghost row = start.row();
        proof {
            lemma_pattern_well_formed(self.pattern);
            assert(row_well_formed(rows[start.message_index as int]));
        }
        let tokens = self.message_patterns[self.message_index];
        let next = self.message_patterns[self.message_index + 1];
        let last = match next[0] {
            Token::Empty => true,
            _ => false,
        };
        proof {
            assert(tokens@ == padded(row, PATTERN_WIDTH as nat));
            let after = row_tokens(rows, (start.message_index + 1) as int);
            assert(next@[0] == padded(after, PATTERN_WIDTH as nat)[0]);
            if start.message_index + 1 < rows.len() {
                assert(row_well_formed(rows[(start.message_index + 1) as int]));
            }
            assert(last == start.last());
            assert(row.take(0) =~= Seq::<Token>::empty());
            assert(message@.skip(0) =~= message@);
        }
        self.message_index += 1;
        let mut cursor: usize = 0;
        let mut j: usize = 0;
        while j < PATTERN_WIDTH && tokens[j] != Token::Empty
            invariant
                j <= row.len() < PATTERN_WIDTH,
                rows == start.rows(),
                row == start.row(),
                row == rows[start.message_index as int],
                start.message_index < rows.len() < PATTERN_WIDTH,
                row_well_formed(row),
                !writes_row(start.initiator, start.message_index as int),
                tokens@ == padded(row, PATTERN_WIDTH as nat),
                self.repr(),
                start == old(self)@,
                cursor <= message@.len(),
                payload@ == old(payload)@,
                start.begin_read().read_tokens::<H, C>(row.take(j as int), message@) == Some(
                    (self@, message@.skip(cursor as int)),
                ),
                self@ == (HandshakeModel {
                    symmetric: self@.symmetric,
                    rs: self@.rs,
                    re: self@.re,
                    message_index: start.message_index + 1,
                    ..start
                }),
                keys_known(
                    rows,
                    start.message_index as int,
                    j as int,
                    start.initiator,
                    self@.rs is Some,
                    self@.re is Some,
                ),
                self@.symmetric.cipher.nonce <= 16 * start.message_index + j,
                cursor == fields_len(
                    row.take(j as int),
                    start.symmetric.has_key(),
                    start.symmetric.has_preshared_key,
                ).0,
                self@.symmetric.has_key() == fields_len(
                    row.take(j as int),
                    start.symmetric.has_key(),
                    start.symmetric.has_preshared_key,
                ).1,
                self@.symmetric.has_preshared_key == start.symmetric.has_preshared_key,
            decreases PATTERN_WIDTH - j,
        {
            proof {
                assert(tokens@[j as int] == padded(row, PATTERN_WIDTH as nat)[j as int]);
                assert(j < row.len());
                assert(tokens@[j as int] == row[j as int]);
                start.begin_read().lemma_read_tokens_step::<H, C>(row, j as int, message@);
                lemma_fields_len_step(
                    row,
                    j as int,
                    start.symmetric.has_key(),
                    start.symmetric.has_preshared_key,
                );
            }
            match self.read_token(tokens[j], message, cursor) {
                Some(next_cursor) => {
                    cursor = next_cursor;
                },
                None => {
                    proof {
                        start.begin_read().lemma_read_tokens_fail::<H, C>(
                            row,
                            j + 1,
                            message@,
                        );
                    }
                    return Err(NoiseError::DecryptError);
                },
            }
            j += 1;
        }
        proof {
            if j < PATTERN_WIDTH {
                assert(tokens@[j as int] == padded(row, PATTERN_WIDTH as nat)[j as int]);
            }
            assert(j == row.len());
            assert(row.take(j as int) =~= row);
        }
        let rest = slice_subrange(message, cursor, message.len());
        proof {
            assert(rest@ =~= message@.skip(cursor as int));
        }
        match self.symmetricstate.decrypt_and_hash(rest) {
            Some(plaintext) => {
                self.my_turn_to_send = true;
                if last {
                    self.symmetricstate.split(&mut self.cipherstate1, &mut self.cipherstate2);
                }
                let len = copy_memory(plaintext.as_slice(), payload);
                proof {
                    assert(payload@.take(len as int) =~= plaintext@);
                    assert(payload@.skip(len as int) =~= old(payload)@.skip(len as int));
                }
                Ok((len, last))
            },
            None => Err(NoiseError::DecryptError),
        }
    }
    /// Whether it is this party's turn to write a message.
    pub fn my_turn_to_send(&self) -> (out: bool)
        ensures
            out == self@.my_turn_to_send,
    {
        self.my_turn_to_send
    }

    /// Whether this party is the initiator.
    pub fn is_initiator(&self) -> (out: bool)
        ensures
            out == self@.initiator,
    {
        self.initiator
    }

    /// Whether every message of the pattern has been processed.
    pub fn is_finished(&self) -> (out: bool)
        requires
            self.wf(),
        ensures
            out == self@.finished(),
    {
        proof {
            lemma_pattern_well_formed(self.pattern);
            let rows = self@.rows();
            let row = row_tokens(rows, self@.message_index as int);
            assert(self.message_patterns@[self.message_index as int]@[0] == padded(
                row,
                PATTERN_WIDTH as nat,
            )[0]);
            if self@.message_index < rows.len() {
                assert(row_well_formed(rows[self@.message_index as int]));
            }
        }
        let row = self.message_patterns[self.message_index];
        match row[0] {
            Token::Empty => true,
            _ => false,
        }
    }

    /// The transcript hash.
    pub fn handshake_hash(&self) -> (out: Vec<u8>)
        ensures
            out@ == self@.symmetric.h,
    {
        self.symmetricstate.handshake_hash()
    }

    /// The chaining key.
    pub fn chaining_key(&self) -> (out: Vec<u8>)
        ensures
            out@ == self@.symmetric.ck,
    {
        self.symmetricstate.chaining_key()
    }

    /// The remote static public key, where it is known.
    pub fn remote_static(&self) -> (out: Option<[u8; DHLEN]>)
        ensures
            key_bytes(out) == self@.rs,
    {
        self.rs
    }

    /// The remote ephemeral public key, where it is known.
    pub fn remote_ephemeral(&self) -> (out: Option<[u8; DHLEN]>)
        ensures
            key_bytes(out) == self@.re,
    {
        self.re
    }

    /// The number of bytes that the next message holds besides its payload.
    pub fn next_message_overhead(&self) -> (out: usize)
        requires
            self.wf(),
        ensures
            out == self@.overhead(),
            out <= 480,
    {
        let ghost rows = self@.rows();
        let ghost row = self@.row();
        proof {
            lemma_pattern_well_formed(self.pattern);
            if self@.message_index < rows.len() {
                assert(row_well_formed(rows[self@.message_index as int]));
            }
            assert(row.take(0) =~= Seq::<Token>::empty());
        }
        let tokens = self.message_patterns[self.message_index];
        let has_psk = self.symmetricstate.has_preshared_key();
        let start_keyed = self.symmetricstate.has_key();
        let mut keyed = start_keyed;
        let mut len: usize = 0;
        let mut j: usize = 0;
        while j < PATTERN_WIDTH && tokens[j] != Token::Empty
            invariant
                j <= row.len() < PATTERN_WIDTH,
                tokens@ == padded(row, PATTERN_WIDTH as nat),
                forall|i: int| 0 <= i < row.len() ==> row[i] != Token::Empty,
                (len as nat, keyed) == fields_len(row.take(j as int), start_keyed, has_psk),
                len <= 48 * j,
            decreases PATTERN_WIDTH - j,
        {
            proof {
                assert(tokens@[j as int] == padded(row, PATTERN_WIDTH as nat)[j as int]);
                assert(j < row.len());
                lemma_fields_len_step(row, j as int, start_keyed, has_psk);
            }
            match tokens[j] {
                Token::E => {
                    len = len + DHLEN;
                    keyed = keyed || has_psk;
                },
                Token::S => {
                    len = len + if keyed {
                        DHLEN + TAGLEN
                    } else {
                        DHLEN
                    };
                },
                Token::Empty => {},
                _ => {
                    keyed = true;
                },
            }
            j += 1;
        }
        proof {
            if j < PATTERN_WIDTH {
                assert(tokens@[j as int] == padded(row, PATTERN_WIDTH as nat)[j as int]);
            }
            assert(j == row.len());
            assert(row.take(j as int) =~= row);
        }
        if keyed {
            len + TAGLEN
        } else {
            len
        }
    }

    /// Whether `write_message` may be called for a payload of `payload_len`
    /// bytes and a buffer of `capacity` bytes.
    pub fn can_write_message(&self, payload_len: usize, capacity: usize) -> (out: bool)
        requires
            self.wf(),
        ensures
            out == {
                &&& !self@.finished()
                &&& self@.my_turn_to_send
                &&& payload_len + self@.overhead() <= MAXMSGLEN
                &&& payload_len + self@.overhead() <= capacity
            },
    {
        if self.is_finished() || !self.my_turn_to_send || payload_len > MAXMSGLEN {
            return false;
        }
        let total = payload_len + self.next_message_overhead();
        total <= MAXMSGLEN && total <= capacity
    }

    /// Whether `read_message` may be called for a message of `message_len`
    /// bytes and a payload buffer of `capacity` bytes.
    pub fn can_read_message(&self, message_len: usize, capacity: usize) -> (out: bool)
        requires
            self.wf(),
        ensures
            out == {
                &&& !self@.finished()
                &&& !self@.my_turn_to_send
                &&& message_len <= MAXMSGLEN
                &&& message_len <= capacity + self@.overhead()
            },
    {
        if self.is_finished() || self.my_turn_to_send || message_len > MAXMSGLEN {
            return false;
        }
        let overhead = self.next_message_overhead();
        message_len <= overhead || message_len - overhead <= capacity
    }

    /// Ends the handshake and hands back what `new` was given to keep: the
    /// random source, the symmetric state, the two cipher states and the
    /// ephemeral key pair.
    pub fn into_parts(self) -> (out: (R, SymmetricState<H, C>, CipherState<C>, CipherState<C>, D))
        ensures
            out.1@ == self@.symmetric,
            out.2@ == self@.cipher1,
            out.3@ == self@.cipher2,
            out.4 == self@.e,
    {
        (self.rng, self.symmetricstate, self.cipherstate1, self.cipherstate2, self.e)
    }
}

} // verus!
