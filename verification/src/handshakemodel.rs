//! The handshake as a function on values: what each message does to the
//! state of a party, and which bytes it puts on the wire.

use vstd::prelude::*;
use crate::cipherstate::CipherModel;
use crate::constants::{DHLEN, TAGLEN};
use crate::crypto_types::{CipherType, DhType, HashType};
use crate::patterns::{
    keys_known,
    lemma_pattern_well_formed,
    message_rows,
    pattern_name,
    premessage_initiator,
    premessage_responder,
    row_tokens,
    writes_row,
    HandshakePattern,
    Token,
};
use crate::symmetricstate::SymmetricModel;

verus! {

/// The bytes `Noise_`.
pub open spec fn prefix_plain() -> Seq<u8> {
    seq!['N' as u8, 'o' as u8, 'i' as u8, 's' as u8, 'e' as u8, '_' as u8]
}

/// The bytes `NoisePSK_`.
pub open spec fn prefix_psk() -> Seq<u8> {
    seq![
        'N' as u8,
        'o' as u8,
        'i' as u8,
        's' as u8,
        'e' as u8,
        'P' as u8,
        'S' as u8,
        'K' as u8,
        '_' as u8,
    ]
}

/// A protocol name: `Noise_`, or `NoisePSK_` with a pre-shared key, then
/// the names of the pattern, the Diffie-Hellman function, the hash and the
/// cipher, joined by `_`.
pub open spec fn joined_name(
    has_psk: bool,
    pattern_name: Seq<u8>,
    dh_name: Seq<u8>,
    hash_name: Seq<u8>,
    cipher_name: Seq<u8>,
) -> Seq<u8> {
    (if has_psk {
        prefix_psk()
    } else {
        prefix_plain()
    }) + pattern_name + seq!['_' as u8] + dh_name + seq!['_' as u8] + hash_name + seq![
        '_' as u8,
    ] + cipher_name
}

/// The protocol name of a handshake.
pub open spec fn protocol_name<D: DhType, H: HashType, C: CipherType>(
    pattern: HandshakePattern,
    has_psk: bool,
) -> Seq<u8> {
    joined_name(
        has_psk,
        pattern_name(pattern),
        D::spec_name(),
        H::spec_name(),
        C::spec_name(),
    )
}

/// The symmetric state after the public keys that a pre-message row names
/// are mixed into the transcript hash, in the order of the row.
pub open spec fn mix_premessage<H: HashType>(
    symmetric: SymmetricModel,
    tokens: Seq<Token>,
    static_key: Option<Seq<u8>>,
    ephemeral_key: Option<Seq<u8>>,
) -> SymmetricModel
    decreases tokens.len(),
{
    if tokens.len() == 0 {
        symmetric
    } else {
        let before = mix_premessage::<H>(symmetric, tokens.drop_last(), static_key, ephemeral_key);
        match tokens.last() {
            Token::S => before.mix_hash::<H>(static_key.unwrap()),
            Token::E => before.mix_hash::<H>(ephemeral_key.unwrap()),
            _ => before,
        }
    }
}

/// Mixing pre-message keys touches the transcript hash alone.
pub proof fn lemma_mix_premessage<H: HashType>(
    symmetric: SymmetricModel,
    tokens: Seq<Token>,
    static_key: Option<Seq<u8>>,
    ephemeral_key: Option<Seq<u8>>,
)
    ensures
        mix_premessage::<H>(symmetric, tokens, static_key, ephemeral_key).ck == symmetric.ck,
        mix_premessage::<H>(symmetric, tokens, static_key, ephemeral_key).cipher
            == symmetric.cipher,
        mix_premessage::<H>(symmetric, tokens, static_key, ephemeral_key).has_preshared_key
            == symmetric.has_preshared_key,
    decreases tokens.len(),
{
    if tokens.len() > 0 {
        lemma_mix_premessage::<H>(symmetric, tokens.drop_last(), static_key, ephemeral_key);
    }
}

/// Mixing pre-message keys depends on the keys that the row names, and on
/// no others.
pub proof fn lemma_mix_premessage_same<H: HashType>(
    symmetric: SymmetricModel,
    tokens: Seq<Token>,
    static1: Option<Seq<u8>>,
    ephemeral1: Option<Seq<u8>>,
    static2: Option<Seq<u8>>,
    ephemeral2: Option<Seq<u8>>,
)
    requires
        forall|i: int|
            0 <= i < tokens.len() ==> {
                &&& #[trigger] tokens[i] == Token::S ==> static1 == static2
                &&& tokens[i] == Token::E ==> ephemeral1 == ephemeral2
            },
    ensures
        mix_premessage::<H>(symmetric, tokens, static1, ephemeral1) == mix_premessage::<H>(
            symmetric,
            tokens,
            static2,
            ephemeral2,
        ),
    decreases tokens.len(),
{
    if tokens.len() > 0 {
        let front = tokens.drop_last();
        assert forall|i: int| 0 <= i < front.len() implies {
            &&& #[trigger] front[i] == Token::S ==> static1 == static2
            &&& front[i] == Token::E ==> ephemeral1 == ephemeral2
        } by {
            assert(front[i] == tokens[i]);
        }
        lemma_mix_premessage_same::<H>(symmetric, front, static1, ephemeral1, static2, ephemeral2);
        assert(tokens.last() == tokens[tokens.len() - 1]);
    }
}

/// The length of the field that a token puts into a message.
pub open spec fn token_len(token: Token, keyed: bool) -> nat {
    match token {
        Token::E => DHLEN as nat,
        Token::S => if keyed {
            (DHLEN + TAGLEN) as nat
        } else {
            DHLEN as nat
        },
        _ => 0,
    }
}

/// Whether there is a cipher key after a token: a Diffie-Hellman token sets
/// one, and so does `E` where a pre-shared key was mixed in.
pub open spec fn keyed_after(token: Token, keyed: bool, has_psk: bool) -> bool {
    match token {
        Token::E => keyed || has_psk,
        Token::EE | Token::ES | Token::SE | Token::SS => true,
        _ => keyed,
    }
}

/// The total length of the fields of a row, and whether there is a cipher
/// key after it.
pub open spec fn fields_len(tokens: Seq<Token>, keyed: bool, has_psk: bool) -> (nat, bool)
    decreases tokens.len(),
{
    if tokens.len() == 0 {
        (0, keyed)
    } else {
        let (len, k) = fields_len(tokens.drop_last(), keyed, has_psk);
        (len + token_len(tokens.last(), k), keyed_after(tokens.last(), k, has_psk))
    }
}

/// What a party to a handshake holds.
pub ghost struct HandshakeModel<D> {
    pub symmetric: SymmetricModel,
    /// The cipher states that receive the transport keys at the end.
    pub cipher1: CipherModel,
    pub cipher2: CipherModel,
    /// The local static and ephemeral key pairs.
    pub s: D,
    pub e: D,
    /// The remote static and ephemeral public keys, as far as known.
    pub rs: Option<Seq<u8>>,
    pub re: Option<Seq<u8>>,
    pub initiator: bool,
    pub my_turn_to_send: bool,
    pub pattern: HandshakePattern,
    /// The row of the next message.
    pub message_index: nat,
}

impl<D: DhType> HandshakeModel<D> {
    /// The state that a handshake starts in: the protocol name, the
    /// prologue, the pre-shared key if there is one, and the pre-message
    /// keys of the initiator and then of the responder are mixed in.
    pub open spec fn initial<H: HashType, C: CipherType>(
        pattern: HandshakePattern,
        initiator: bool,
        prologue: Seq<u8>,
        psk: Option<Seq<u8>>,
        s: D,
        e: D,
        rs: Option<Seq<u8>>,
        re: Option<Seq<u8>>,
        cipher1: CipherModel,
        cipher2: CipherModel,
    ) -> HandshakeModel<D> {
        let named = SymmetricModel::initialize::<H>(protocol_name::<D, H, C>(pattern, psk is Some));
        let mixed = named.mix_hash::<H>(prologue);
        let keyed = match psk {
            Some(key) => mixed.mix_preshared_key::<H>(key),
            None => mixed,
        };
        let local_s = Some(s.spec_pubkey());
        let local_e = Some(e.spec_pubkey());
        let symmetric = if initiator {
            mix_premessage::<H>(
                mix_premessage::<H>(keyed, premessage_initiator(pattern), local_s, local_e),
                premessage_responder(pattern),
                rs,
                re,
            )
        } else {
            mix_premessage::<H>(
                mix_premessage::<H>(keyed, premessage_initiator(pattern), rs, re),
                premessage_responder(pattern),
                local_s,
                local_e,
            )
        };
        HandshakeModel {
            symmetric,
            cipher1,
            cipher2,
            s,
            e,
            rs,
            re,
            initiator,
            my_turn_to_send: initiator,
            pattern,
            message_index: 0,
        }
    }

    /// The rows of message tokens of the pattern.
    pub open spec fn rows(self) -> Seq<Seq<Token>> {
        message_rows(self.pattern)
    }

    /// The tokens of the next message.
    pub open spec fn row(self) -> Seq<Token> {
        row_tokens(self.rows(), self.message_index as int)
    }

    /// Whether every message of the pattern has been processed.
    pub open spec fn finished(self) -> bool {
        self.message_index >= self.rows().len()
    }

    /// Whether the next message is the last of the pattern.
    pub open spec fn last(self) -> bool {
        self.message_index + 1 == self.rows().len()
    }

    /// What holds of a party between two messages: the turn follows from
    /// the role and the row, the remote keys that the rest of the pattern
    /// needs are known or will have arrived, and the nonce is far from its
    /// end.
    pub open spec fn wf(self) -> bool {
        &&& self.message_index <= self.rows().len()
        &&& self.my_turn_to_send == writes_row(self.initiator, self.message_index as int)
        &&& keys_known(
            self.rows(),
            self.message_index as int,
            0,
            self.initiator,
            self.rs is Some,
            self.re is Some,
        )
        &&& self.symmetric.cipher.nonce <= 16 * self.message_index
    }

    /// The number of bytes that the next message holds besides its payload.
    pub open spec fn overhead(self) -> nat {
        let (len, keyed) = fields_len(
            self.row(),
            self.symmetric.has_key(),
            self.symmetric.has_preshared_key,
        );
        if keyed {
            len + TAGLEN as nat
        } else {
            len
        }
    }

    /// The shared secret that a Diffie-Hellman token mixes in. `ES` joins
    /// the initiator's ephemeral key with the responder's static key, `SE`
    /// the initiator's static key with the responder's ephemeral key, so
    /// each party takes its own half by its role.
    pub open spec fn dh(self, token: Token) -> Seq<u8> {
        match token {
            Token::EE => self.e.spec_dh(self.re.unwrap()),
            Token::SS => self.s.spec_dh(self.rs.unwrap()),
            Token::ES => if self.initiator {
                self.e.spec_dh(self.rs.unwrap())
            } else {
                self.s.spec_dh(self.re.unwrap())
            },
            Token::SE => if self.initiator {
                self.s.spec_dh(self.re.unwrap())
            } else {
                self.e.spec_dh(self.rs.unwrap())
            },
            _ => Seq::<u8>::empty(),
        }
    }

    /// The symmetric state after a public ephemeral key is mixed in: into
    /// the hash, and with a pre-shared key into the chaining key as well.
    pub open spec fn mix_ephemeral<H: HashType>(symmetric: SymmetricModel, pubkey: Seq<u8>) -> SymmetricModel {
        let hashed = symmetric.mix_hash::<H>(pubkey);
        if hashed.has_preshared_key {
            hashed.mix_key::<H>(pubkey)
        } else {
            hashed
        }
    }

    /// The state after the sender has processed a token, and the field that
    /// the token adds to the message.
    pub open spec fn write_token<H: HashType, C: CipherType>(self, token: Token) -> (
        HandshakeModel<D>,
        Seq<u8>,
    ) {
        match token {
            Token::E => {
                let pubkey = self.e.spec_pubkey();
                (
                    HandshakeModel {
                        symmetric: Self::mix_ephemeral::<H>(self.symmetric, pubkey),
                        ..self
                    },
                    pubkey,
                )
            },
            Token::S => {
                let (symmetric, field) = self.symmetric.encrypt_and_hash::<H, C>(
                    self.s.spec_pubkey(),
                );
                (HandshakeModel { symmetric, ..self }, field)
            },
            Token::EE | Token::ES | Token::SE | Token::SS => (
                HandshakeModel { symmetric: self.symmetric.mix_key::<H>(self.dh(token)), ..self },
                Seq::<u8>::empty(),
            ),
            Token::Empty => (self, Seq::<u8>::empty()),
        }
    }

    /// The state after the sender has processed a row of tokens, and the
    /// fields of the message.
    pub open spec fn write_tokens<H: HashType, C: CipherType>(self, tokens: Seq<Token>) -> (
        HandshakeModel<D>,
        Seq<u8>,
    )
        decreases tokens.len(),
    {
        if tokens.len() == 0 {
            (self, Seq::<u8>::empty())
        } else {
            let (before, fields) = self.write_tokens::<H, C>(tokens.drop_last());
            let (after, field) = before.write_token::<H, C>(tokens.last());
            (after, fields + field)
        }
    }

    /// The state with the transport keys derived, where `last` holds.
    pub open spec fn split_if<H: HashType>(self, last: bool) -> HandshakeModel<D> {
        if last {
            let (cipher1, cipher2) = self.symmetric.split::<H>();
            HandshakeModel { cipher1, cipher2, ..self }
        } else {
            self
        }
    }

    /// The state at the start of the next message: the row is taken, and a
    /// row that begins with `E` gets the ephemeral key pair `fresh`.
    pub open spec fn begin_write(self, fresh: D) -> HandshakeModel<D> {
        HandshakeModel {
            e: if self.row().len() > 0 && self.row()[0] == Token::E {
                fresh
            } else {
                self.e
            },
            message_index: self.message_index + 1,
            ..self
        }
    }

    /// Writing a message: the tokens of the row are processed in order,
    /// each adding its field; the payload is encrypted and mixed in behind
    /// them; the turn passes to the other party; and after the last row
    /// the transport keys are derived. `fresh` is the ephemeral key pair
    /// that is generated for a row that begins with `E`. Gives the new
    /// state and the message.
    pub open spec fn write_message<H: HashType, C: CipherType>(self, payload: Seq<u8>, fresh: D) -> (
        HandshakeModel<D>,
        Seq<u8>,
    ) {
        let (written, fields) = self.begin_write(fresh).write_tokens::<H, C>(self.row());
        let (symmetric, sealed) = written.symmetric.encrypt_and_hash::<H, C>(payload);
        (
            HandshakeModel { symmetric, my_turn_to_send: false, ..written }.split_if::<H>(
                self.last(),
            ),
            fields + sealed,
        )
    }

    /// The state after the receiver has processed a token whose field
    /// stands at the front of `input`, and what is left of `input`; `None`
    /// where the field is cut short or does not authenticate.
    pub open spec fn read_token<H: HashType, C: CipherType>(self, token: Token, input: Seq<u8>) -> Option<
        (HandshakeModel<D>, Seq<u8>),
    > {
        match token {
            Token::E => {
                if input.len() < DHLEN {
                    None
                } else {
                    let pubkey = input.take(DHLEN as int);
                    Some(
                        (
                            HandshakeModel {
                                symmetric: Self::mix_ephemeral::<H>(self.symmetric, pubkey),
                                re: Some(pubkey),
                                ..self
                            },
                            input.skip(DHLEN as int),
                        ),
                    )
                }
            },
            Token::S => {
                let width = self.symmetric.cipher.sealed_len(DHLEN as nat);
                if input.len() < width {
                    None
                } else {
                    match self.symmetric.decrypt_and_hash::<H, C>(input.take(width as int)) {
                        Some((symmetric, pubkey)) => Some(
                            (
                                HandshakeModel { symmetric, rs: Some(pubkey), ..self },
                                input.skip(width as int),
                            ),
                        ),
                        None => None,
                    }
                }
            },
            Token::EE | Token::ES | Token::SE | Token::SS => Some(
                (
                    HandshakeModel {
                        symmetric: self.symmetric.mix_key::<H>(self.dh(token)),
                        ..self
                    },
                    input,
                ),
            ),
            Token::Empty => Some((self, input)),
        }
    }

    /// The state after the receiver has processed a row of tokens on the
    /// message `input`, and what is left of the message; `None` where a
    /// field is cut short or does not authenticate.
    pub open spec fn read_tokens<H: HashType, C: CipherType>(self, tokens: Seq<Token>, input: Seq<u8>) -> Option<
        (HandshakeModel<D>, Seq<u8>),
    >
        decreases tokens.len(),
    {
        if tokens.len() == 0 {
            Some((self, input))
        } else {
            match self.read_tokens::<H, C>(tokens.drop_last(), input) {
                Some((before, rest)) => before.read_token::<H, C>(tokens.last(), rest),
                None => None,
            }
        }
    }

    /// The state at the start of the next message that is read.
    pub open spec fn begin_read(self) -> HandshakeModel<D> {
        HandshakeModel { message_index: self.message_index + 1, ..self }
    }

    /// Reading a message: the tokens of the row are processed in order,
    /// each taking its field from the front of the message; what is left
    /// is the encrypted payload; the turn passes to this party; and after
    /// the last row the transport keys are derived. Gives the new state and
    /// the payload, or `None` where a field is cut short or a field or the
    /// payload does not authenticate.
    pub open spec fn read_message<H: HashType, C: CipherType>(self, message: Seq<u8>) -> Option<
        (HandshakeModel<D>, Seq<u8>),
    > {
        match self.begin_read().read_tokens::<H, C>(self.row(), message) {
            Some((read, rest)) => match read.symmetric.decrypt_and_hash::<H, C>(rest) {
                Some((symmetric, payload)) => Some(
                    (
                        HandshakeModel { symmetric, my_turn_to_send: true, ..read }.split_if::<H>(
                            self.last(),
                        ),
                        payload,
                    ),
                ),
                None => None,
            },
            None => None,
        }
    }
}

/// The fields of a row whose first `j + 1` tokens are taken are those of
/// its first `j` tokens and the field of the token `j`.
pub proof fn lemma_fields_len_step(tokens: Seq<Token>, j: int, keyed: bool, has_psk: bool)
    requires
        0 <= j < tokens.len(),
    ensures
        fields_len(tokens.take(j + 1), keyed, has_psk) == ({
            let (len, k) = fields_len(tokens.take(j), keyed, has_psk);
            (len + token_len(tokens[j], k), keyed_after(tokens[j], k, has_psk))
        }),
{
    assert(tokens.take(j + 1).drop_last() =~= tokens.take(j));
    assert(tokens.take(j + 1).last() == tokens[j]);
}

impl<D: DhType> HandshakeModel<D> {
    /// Writing the first `j + 1` tokens of a row is writing its first `j`
    /// tokens and then the token `j`.
    pub proof fn lemma_write_tokens_step<H: HashType, C: CipherType>(self, tokens: Seq<Token>, j: int)
        requires
            0 <= j < tokens.len(),
        ensures
            self.write_tokens::<H, C>(tokens.take(j + 1)) == ({
                let (before, fields) = self.write_tokens::<H, C>(tokens.take(j));
                let (after, field) = before.write_token::<H, C>(tokens[j]);
                (after, fields + field)
            }),
    {
        assert(tokens.take(j + 1).drop_last() =~= tokens.take(j));
        assert(tokens.take(j + 1).last() == tokens[j]);
    }

    /// Reading the first `j + 1` tokens of a row is reading its first `j`
    /// tokens and then the token `j`.
    pub proof fn lemma_read_tokens_step<H: HashType, C: CipherType>(
        self,
        tokens: Seq<Token>,
        j: int,
        input: Seq<u8>,
    )
        requires
            0 <= j < tokens.len(),
        ensures
            self.read_tokens::<H, C>(tokens.take(j + 1), input) == (match self.read_tokens::<H, C>(
                tokens.take(j),
                input,
            ) {
                Some((before, rest)) => before.read_token::<H, C>(tokens[j], rest),
                None => None,
            }),
    {
        assert(tokens.take(j + 1).drop_last() =~= tokens.take(j));
        assert(tokens.take(j + 1).last() == tokens[j]);
    }

    /// A row that fails on its first `j` tokens fails as a whole.
    pub proof fn lemma_read_tokens_fail<H: HashType, C: CipherType>(
        self,
        tokens: Seq<Token>,
        j: int,
        input: Seq<u8>,
    )
        requires
            0 <= j <= tokens.len(),
            self.read_tokens::<H, C>(tokens.take(j), input) is None,
        ensures
            self.read_tokens::<H, C>(tokens, input) is None,
        decreases tokens.len() - j,
    {
        if j < tokens.len() {
            self.lemma_read_tokens_step::<H, C>(tokens, j, input);
            self.lemma_read_tokens_fail::<H, C>(tokens, j + 1, input);
        } else {
            assert(tokens.take(j) =~= tokens);
        }
    }
}

impl<D: DhType> HandshakeModel<D> {
    /// Of an initiator and a responder that start a handshake exactly one
    /// has the turn: the initiator.
    pub proof fn lemma_one_side_starts<H: HashType, C: CipherType>(
        pattern: HandshakePattern,
        initiator: bool,
        prologue: Seq<u8>,
        psk: Option<Seq<u8>>,
        keys: (D, D),
        remote: (Option<Seq<u8>>, Option<Seq<u8>>),
        ciphers: (CipherModel, CipherModel),
    )
        ensures
            Self::initial::<H, C>(
                pattern,
                initiator,
                prologue,
                psk,
                keys.0,
                keys.1,
                remote.0,
                remote.1,
                ciphers.0,
                ciphers.1,
            ).my_turn_to_send == initiator,
            Self::initial::<H, C>(
                pattern,
                initiator,
                prologue,
                psk,
                keys.0,
                keys.1,
                remote.0,
                remote.1,
                ciphers.0,
                ciphers.1,
            ).message_index == 0,
    {
    }

    /// A message that is written takes the turn away, a message that is
    /// read gives it; either way the party moves on by one row, and between
    /// two messages the turn is the writer's of the next row.
    pub proof fn lemma_turn_passes<H: HashType, C: CipherType>(self, payload: Seq<u8>, fresh: D, message: Seq<u8>)
        ensures
            !self.write_message::<H, C>(payload, fresh).0.my_turn_to_send,
            self.write_message::<H, C>(payload, fresh).0.message_index == self.message_index + 1,
            self.write_message::<H, C>(payload, fresh).0.initiator == self.initiator,
            self.read_message::<H, C>(message) matches Some((read, _)) ==> {
                &&& read.my_turn_to_send
                &&& read.message_index == self.message_index + 1
                &&& read.initiator == self.initiator
            },
    {
        let begun = self.begin_write(fresh);
        begun.lemma_write_tokens_frame::<H, C>(self.row());
        let reading = self.begin_read();
        reading.lemma_read_tokens_frame::<H, C>(self.row(), message);
    }

    /// The two cipher states are written once, by the last message of the
    /// pattern, which sets in them the keys that the final chaining key
    /// splits into; every other message leaves them alone.
    pub proof fn lemma_transport_keys<H: HashType, C: CipherType>(
        self,
        payload: Seq<u8>,
        fresh: D,
        message: Seq<u8>,
    )
        ensures
            ({
                let written = self.write_message::<H, C>(payload, fresh).0;
                if self.last() {
                    (written.cipher1, written.cipher2) == written.symmetric.split::<H>()
                } else {
                    written.cipher1 == self.cipher1 && written.cipher2 == self.cipher2
                }
            }),
            self.read_message::<H, C>(message) matches Some((read, _)) ==> if self.last() {
                (read.cipher1, read.cipher2) == read.symmetric.split::<H>()
            } else {
                read.cipher1 == self.cipher1 && read.cipher2 == self.cipher2
            },
    {
        let begun = self.begin_write(fresh);
        begun.lemma_write_tokens_frame::<H, C>(self.row());
        let reading = self.begin_read();
        reading.lemma_read_tokens_frame::<H, C>(self.row(), message);
    }

    /// Writing tokens changes the symmetric state and nothing else.
    pub proof fn lemma_write_tokens_frame<H: HashType, C: CipherType>(self, tokens: Seq<Token>)
        ensures
            self.write_tokens::<H, C>(tokens).0 == (HandshakeModel {
                symmetric: self.write_tokens::<H, C>(tokens).0.symmetric,
                ..self
            }),
        decreases tokens.len(),
    {
        if tokens.len() > 0 {
            self.lemma_write_tokens_frame::<H, C>(tokens.drop_last());
        }
    }

    /// Reading tokens changes the symmetric state and the remote keys and
    /// nothing else.
    pub proof fn lemma_read_tokens_frame<H: HashType, C: CipherType>(
        self,
        tokens: Seq<Token>,
        input: Seq<u8>,
    )
        ensures
            self.read_tokens::<H, C>(tokens, input) matches Some((read, _)) ==> read == (
            HandshakeModel { symmetric: read.symmetric, rs: read.rs, re: read.re, ..self }),
        decreases tokens.len(),
    {
        if tokens.len() > 0 {
            self.lemma_read_tokens_frame::<H, C>(tokens.drop_last(), input);
        }
    }

    /// Of the messages of a pattern exactly one is the last, whatever the
    /// role of the party: the one of the final row. So each party is told
    /// once that the handshake is over, and both at the same message.
    pub proof fn lemma_one_last_message(self, other: HandshakeModel<D>)
        requires
            self.pattern == other.pattern,
        ensures
            self.rows().len() > 0,
            self.last() <==> self.message_index == self.rows().len() - 1,
            self.message_index == other.message_index ==> self.last() == other.last(),
    {
        lemma_pattern_well_formed(self.pattern);
    }

    /// The symmetric state that a handshake starts with is a function of
    /// the pattern, the role, the prologue, the pre-shared key and the
    /// public keys: neither the private keys nor the cipher states that
    /// are handed in bear on it.
    pub proof fn lemma_initial_determined<H: HashType, C: CipherType>(
        pattern: HandshakePattern,
        initiator: bool,
        prologue: Seq<u8>,
        psk: Option<Seq<u8>>,
        s1: D,
        e1: D,
        s2: D,
        e2: D,
        rs: Option<Seq<u8>>,
        re: Option<Seq<u8>>,
        ciphers1: (CipherModel, CipherModel),
        ciphers2: (CipherModel, CipherModel),
    )
        requires
            s1.spec_pubkey() == s2.spec_pubkey(),
            e1.spec_pubkey() == e2.spec_pubkey(),
        ensures
            Self::initial::<H, C>(
                pattern,
                initiator,
                prologue,
                psk,
                s1,
                e1,
                rs,
                re,
                ciphers1.0,
                ciphers1.1,
            ).symmetric == Self::initial::<H, C>(
                pattern,
                initiator,
                prologue,
                psk,
                s2,
                e2,
                rs,
                re,
                ciphers2.0,
                ciphers2.1,
            ).symmetric,
    {
    }
}

} // verus!
