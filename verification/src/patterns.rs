//! The handshake patterns: for each pattern its name, the keys that are
//! known before the first message, and the rows of tokens of its messages.

use vstd::prelude::*;
use crate::utils::copy_memory;

verus! {

/// One step of a handshake message. `Empty` fills the unused cells of a row
/// of fixed width and ends the row.
#[derive(Clone, Copy, Debug, PartialEq, Eq, Structural)]
pub enum Token {
    /// The sender's ephemeral public key.
    E,
    /// The sender's static public key.
    S,
    /// Diffie-Hellman of the two ephemeral keys.
    EE,
    /// Diffie-Hellman of the initiator's ephemeral and the responder's static key.
    ES,
    /// Diffie-Hellman of the initiator's static and the responder's ephemeral key.
    SE,
    /// Diffie-Hellman of the two static keys.
    SS,
    /// No token.
    Empty,
}

/// The handshake patterns. The first letter says what happens to the
/// initiator's static key, the second to the responder's: `N` none, `K`
/// known beforehand, `X` transmitted, `I` transmitted at once.
#[derive(Clone, Copy, Debug, PartialEq, Eq, Structural)]
pub enum HandshakePattern {
    N,
    K,
    X,
    NN,
    NK,
    NX,
    XN,
    XK,
    XX,
    KN,
    KK,
    KX,
    IN,
    IK,
    IX,
}

/// The number of cells in a row of message tokens, and of rows in a matrix.
pub const PATTERN_WIDTH: usize = 10;

/// The number of cells in a row of pre-message tokens.
pub const PREMESSAGE_WIDTH: usize = 2;

/// The name of a pattern as it stands in a protocol name.
pub open spec fn pattern_name(pattern: HandshakePattern) -> Seq<u8> {
    match pattern {
        HandshakePattern::N => seq!['N' as u8],
        HandshakePattern::K => seq!['K' as u8],
        HandshakePattern::X => seq!['X' as u8],
        HandshakePattern::NN => seq!['N' as u8, 'N' as u8],
        HandshakePattern::NK => seq!['N' as u8, 'K' as u8],
        HandshakePattern::NX => seq!['N' as u8, 'X' as u8],
        HandshakePattern::XN => seq!['X' as u8, 'N' as u8],
        HandshakePattern::XK => seq!['X' as u8, 'K' as u8],
        HandshakePattern::XX => seq!['X' as u8, 'X' as u8],
        HandshakePattern::KN => seq!['K' as u8, 'N' as u8],
        HandshakePattern::KK => seq!['K' as u8, 'K' as u8],
        HandshakePattern::KX => seq!['K' as u8, 'X' as u8],
        HandshakePattern::IN => seq!['I' as u8, 'N' as u8],
        HandshakePattern::IK => seq!['I' as u8, 'K' as u8],
        HandshakePattern::IX => seq!['I' as u8, 'X' as u8],
    }
}

/// The keys of the initiator that the responder knows beforehand.
pub open spec fn premessage_initiator(pattern: HandshakePattern) -> Seq<Token> {
    match pattern {
        HandshakePattern::K | HandshakePattern::KN | HandshakePattern::KK | HandshakePattern::KX => seq![
            Token::S,
        ],
        _ => seq![],
    }
}

/// The keys of the responder that the initiator knows beforehand.
pub open spec fn premessage_responder(pattern: HandshakePattern) -> Seq<Token> {
    match pattern {
        HandshakePattern::N
        | HandshakePattern::K
        | HandshakePattern::X
        | HandshakePattern::NK
        | HandshakePattern::XK
        | HandshakePattern::KK
        | HandshakePattern::IK => seq![Token::S],
        _ => seq![],
    }
}

/// The tokens of each message, the initiator's messages being the rows
/// 0, 2, 4, ... and the responder's the rows 1, 3, 5, ...
pub open spec fn message_rows(pattern: HandshakePattern) -> Seq<Seq<Token>> {
    match pattern {
        HandshakePattern::N => seq![seq![Token::E, Token::ES]],
        HandshakePattern::K => seq![seq![Token::E, Token::ES, Token::SS]],
        HandshakePattern::X => seq![seq![Token::E, Token::ES, Token::S, Token::SS]],
        HandshakePattern::NN => seq![seq![Token::E], seq![Token::E, Token::EE]],
        HandshakePattern::NK => seq![seq![Token::E, Token::ES], seq![Token::E, Token::EE]],
        HandshakePattern::NX => seq![
            seq![Token::E],
            seq![Token::E, Token::EE, Token::S, Token::ES],
        ],
        HandshakePattern::XN => seq![
            seq![Token::E],
            seq![Token::E, Token::EE],
            seq![Token::S, Token::SE],
        ],
        HandshakePattern::XK => seq![
            seq![Token::E, Token::ES],
            seq![Token::E, Token::EE],
            seq![Token::S, Token::SE],
        ],
        HandshakePattern::XX => seq![
            seq![Token::E],
            seq![Token::E, Token::EE, Token::S, Token::ES],
            seq![Token::S, Token::SE],
        ],
        HandshakePattern::KN => seq![seq![Token::E], seq![Token::E, Token::EE, Token::SE]],
        HandshakePattern::KK => seq![
            seq![Token::E, Token::ES, Token::SS],
            seq![Token::E, Token::EE, Token::SE],
        ],
        HandshakePattern::KX => seq![
            seq![Token::E],
            seq![Token::E, Token::EE, Token::SE, Token::S, Token::ES],
        ],
        HandshakePattern::IN => seq![
            seq![Token::E, Token::S],
            seq![Token::E, Token::EE, Token::SE],
        ],
        HandshakePattern::IK => seq![
            seq![Token::E, Token::ES, Token::S, Token::SS],
            seq![Token::E, Token::EE, Token::SE],
        ],
        HandshakePattern::IX => seq![
            seq![Token::E, Token::S],
            seq![Token::E, Token::EE, Token::SE, Token::S, Token::ES],
        ],
    }
}

/// A row of `width` cells that starts with `tokens` and is `Empty` after
/// them.
pub open spec fn padded(tokens: Seq<Token>, width: nat) -> Seq<Token> {
    Seq::new(
        width,
        |i: int|
            if i < tokens.len() {
                tokens[i]
            } else {
                Token::Empty
            },
    )
}

/// The tokens of row `row`, or none where the pattern has no such row.
pub open spec fn row_tokens(rows: Seq<Seq<Token>>, row: int) -> Seq<Token> {
    if 0 <= row < rows.len() {
        rows[row]
    } else {
        seq![]
    }
}

/// Whether a matrix of fixed width holds `rows`, each padded with `Empty`,
/// and rows of `Empty` after them.
pub open spec fn matrix_holds(
    matrix: [[Token; PATTERN_WIDTH]; PATTERN_WIDTH],
    rows: Seq<Seq<Token>>,
) -> bool {
    forall|row: int|
        0 <= row < PATTERN_WIDTH ==> (#[trigger] matrix@[row])@ == padded(
            row_tokens(rows, row),
            PATTERN_WIDTH as nat,
        )
}

/// Whether a row of message tokens can be processed: it has a token and
/// leaves a cell for the end mark, holds no `Empty`, and an `E` stands
/// nowhere but in front.
pub open spec fn row_well_formed(tokens: Seq<Token>) -> bool {
    &&& 0 < tokens.len() < PATTERN_WIDTH
    &&& forall|i: int| 0 <= i < tokens.len() ==> tokens[i] != Token::Empty
    &&& forall|i: int| 0 < i < tokens.len() ==> tokens[i] != Token::E
}

/// Whether the rows of a pattern can be processed: there is a row, a row
/// of the matrix is left for the end mark, and each row is well formed.
pub open spec fn rows_well_formed(rows: Seq<Seq<Token>>) -> bool {
    &&& 0 < rows.len() < PATTERN_WIDTH
    &&& forall|row: int| 0 <= row < rows.len() ==> row_well_formed(#[trigger] rows[row])
}

/// Whether a pre-message row names public keys only.
pub open spec fn premessage_well_formed(tokens: Seq<Token>) -> bool {
    &&& tokens.len() <= PREMESSAGE_WIDTH
    &&& forall|i: int|
        0 <= i < tokens.len() ==> (#[trigger] tokens[i] == Token::S || tokens[i] == Token::E)
}

/// The rows of every pattern are well formed, and its pre-message rows
/// name public keys only.
pub proof fn lemma_pattern_well_formed(pattern: HandshakePattern)
    ensures
        rows_well_formed(message_rows(pattern)),
        premessage_well_formed(premessage_initiator(pattern)),
        premessage_well_formed(premessage_responder(pattern)),
{
}

/// Whether this party sends the message of row `row`: the initiator sends
/// the even rows, the responder the odd ones.
pub open spec fn writes_row(initiator: bool, row: int) -> bool {
    initiator == (row % 2 == 0)
}

/// Whether the remote keys that a token needs are known.
pub open spec fn token_keys_known(token: Token, initiator: bool, has_rs: bool, has_re: bool) -> bool {
    match token {
        Token::EE => has_re,
        Token::SS => has_rs,
        Token::ES => if initiator {
            has_rs
        } else {
            has_re
        },
        Token::SE => if initiator {
            has_re
        } else {
            has_rs
        },
        _ => true,
    }
}

/// Whether a party that stands before the token `col` of row `row`, and
/// knows the remote static key if `has_rs` and the remote ephemeral key if
/// `has_re`, knows at each Diffie-Hellman token from there on the remote key
/// that the token needs. A message that it reads teaches it the keys that
/// the message carries.
pub open spec fn keys_known(
    rows: Seq<Seq<Token>>,
    row: int,
    col: int,
    initiator: bool,
    has_rs: bool,
    has_re: bool,
) -> bool
    decreases rows.len() - row, row_tokens(rows, row).len() - col,
{
    if row < 0 || col < 0 || row >= rows.len() {
        true
    } else if col >= rows[row].len() {
        keys_known(rows, row + 1, 0, initiator, has_rs, has_re)
    } else {
        let token = rows[row][col];
        let reading = !writes_row(initiator, row);
        &&& token_keys_known(token, initiator, has_rs, has_re)
        &&& keys_known(
            rows,
            row,
            col + 1,
            initiator,
            has_rs || (reading && token == Token::S),
            has_re || (reading && token == Token::E),
        )
    }
}

/// Whether the remote keys that a pre-message row names are known.
pub open spec fn premessage_keys_known(tokens: Seq<Token>, has_rs: bool, has_re: bool) -> bool {
    forall|i: int|
        0 <= i < tokens.len() ==> {
            &&& #[trigger] tokens[i] == Token::S ==> has_rs
            &&& tokens[i] == Token::E ==> has_re
        }
}

/// The pre-message row of the other party.
pub open spec fn premessage_remote(pattern: HandshakePattern, initiator: bool) -> Seq<Token> {
    if initiator {
        premessage_responder(pattern)
    } else {
        premessage_initiator(pattern)
    }
}

/// The pre-message row of this party.
pub open spec fn premessage_local(pattern: HandshakePattern, initiator: bool) -> Seq<Token> {
    if initiator {
        premessage_initiator(pattern)
    } else {
        premessage_responder(pattern)
    }
}

/// A party that knows the remote keys of the other party's pre-message row
/// knows, at each Diffie-Hellman token of the pattern, the remote key that
/// the token needs.
pub proof fn lemma_keys_known(pattern: HandshakePattern, initiator: bool, has_rs: bool, has_re: bool)
    requires
        premessage_keys_known(premessage_remote(pattern, initiator), has_rs, has_re),
    ensures
        keys_known(message_rows(pattern), 0, 0, initiator, has_rs, has_re),
{
    reveal_with_fuel(keys_known, 12);
    let remote = premessage_remote(pattern, initiator);
    if remote.len() > 0 {
        assert(remote[0] == Token::S);
    }
}

fn row1(a: Token) -> (out: [Token; PATTERN_WIDTH])
    ensures
        out@ == padded(seq![a], PATTERN_WIDTH as nat),
{
    let out = [
        a,
        Token::Empty,
        Token::Empty,
        Token::Empty,
        Token::Empty,
        Token::Empty,
        Token::Empty,
        Token::Empty,
        Token::Empty,
        Token::Empty,
    ];
    proof {
        assert(out@ =~= padded(seq![a], PATTERN_WIDTH as nat));
    }
    out
}

fn row2(a: Token, b: Token) -> (out: [Token; PATTERN_WIDTH])
    ensures
        out@ == padded(seq![a, b], PATTERN_WIDTH as nat),
{
    let out = [
        a,
        b,
        Token::Empty,
        Token::Empty,
        Token::Empty,
        Token::Empty,
        Token::Empty,
        Token::Empty,
        Token::Empty,
        Token::Empty,
    ];
    proof {
        assert(out@ =~= padded(seq![a, b], PATTERN_WIDTH as nat));
    }
    out
}

fn row3(a: Token, b: Token, c: Token) -> (out: [Token; PATTERN_WIDTH])
    ensures
        out@ == padded(seq![a, b, c], PATTERN_WIDTH as nat),
{
    let out = [
        a,
        b,
        c,
        Token::Empty,
        Token::Empty,
        Token::Empty,
        Token::Empty,
        Token::Empty,
        Token::Empty,
        Token::Empty,
    ];
    proof {
        assert(out@ =~= padded(seq![a, b, c], PATTERN_WIDTH as nat));
    }
    out
}

fn row4(a: Token, b: Token, c: Token, d: Token) -> (out: [Token; PATTERN_WIDTH])
    ensures
        out@ == padded(seq![a, b, c, d], PATTERN_WIDTH as nat),
{
    let out = [
        a,
        b,
        c,
        d,
        Token::Empty,
        Token::Empty,
        Token::Empty,
        Token::Empty,
        Token::Empty,
        Token::Empty,
    ];
    proof {
        assert(out@ =~= padded(seq![a, b, c, d], PATTERN_WIDTH as nat));
    }
    out
}

fn row5(a: Token, b: Token, c: Token, d: Token, e: Token) -> (out: [Token; PATTERN_WIDTH])
    ensures
        out@ == padded(seq![a, b, c, d, e], PATTERN_WIDTH as nat),
{
    let out = [
        a,
        b,
        c,
        d,
        e,
        Token::Empty,
        Token::Empty,
        Token::Empty,
        Token::Empty,
        Token::Empty,
    ];
    proof {
        assert(out@ =~= padded(seq![a, b, c, d, e], PATTERN_WIDTH as nat));
    }
    out
}

fn empty_row() -> (out: [Token; PATTERN_WIDTH])
    ensures
        out@ == padded(seq![], PATTERN_WIDTH as nat),
{
    let out = [
        Token::Empty,
        Token::Empty,
        Token::Empty,
        Token::Empty,
        Token::Empty,
        Token::Empty,
        Token::Empty,
        Token::Empty,
        Token::Empty,
        Token::Empty,
    ];
    proof {
        assert(out@ =~= padded(seq![], PATTERN_WIDTH as nat));
    }
    out
}

fn premessage_row(known: bool) -> (out: [Token; PREMESSAGE_WIDTH])
    ensures
        out@ == padded(
            if known {
                seq![Token::S]
            } else {
                seq![]
            },
            PREMESSAGE_WIDTH as nat,
        ),
{
    let out = if known {
        [Token::S, Token::Empty]
    } else {
        [Token::Empty, Token::Empty]
    };
    proof {
        if known {
            assert(out@ =~= padded(seq![Token::S], PREMESSAGE_WIDTH as nat));
        } else {
            assert(out@ =~= padded(seq![], PREMESSAGE_WIDTH as nat));
        }
    }
    out
}

fn name1(a: char) -> (out: Vec<u8>)
    requires
        a as u32 <= 127,
    ensures
        out@ == seq![a as u8],
{
    let out = vec![a as u8];
    proof {
        assert(out@ =~= seq![a as u8]);
    }
    out
}

fn name2(a: char, b: char) -> (out: Vec<u8>)
    requires
        a as u32 <= 127,
        b as u32 <= 127,
    ensures
        out@ == seq![a as u8, b as u8],
{
    let out = vec![a as u8, b as u8];
    proof {
        assert(out@ =~= seq![a as u8, b as u8]);
    }
    out
}

/// Resolves a pattern: writes its name to the front of `name`, the two
/// pre-message rows to `premsg_pattern_i` and `premsg_pattern_r`, and the
/// rows of message tokens to `msg_patterns`; cells and rows that the
/// pattern does not use hold `Empty`. Returns the length of the name.
pub fn resolve_handshake_pattern(
    handshake_pattern: HandshakePattern,
    name: &mut [u8],
    premsg_pattern_i: &mut [Token; PREMESSAGE_WIDTH],
    premsg_pattern_r: &mut [Token; PREMESSAGE_WIDTH],
    msg_patterns: &mut [[Token; PATTERN_WIDTH]; PATTERN_WIDTH],
) -> (name_len: usize)
    requires
        old(name)@.len() >= 2,
    ensures
        name_len == pattern_name(handshake_pattern).len(),
        final(name)@ == pattern_name(handshake_pattern) + old(name)@.skip(name_len as int),
        final(premsg_pattern_i)@ == padded(
            premessage_initiator(handshake_pattern),
            PREMESSAGE_WIDTH as nat,
        ),
        final(premsg_pattern_r)@ == padded(
            premessage_responder(handshake_pattern),
            PREMESSAGE_WIDTH as nat,
        ),
        matrix_holds(*final(msg_patterns), message_rows(handshake_pattern)),
{
    let mut i: usize = 0;
    while i < PATTERN_WIDTH
        invariant
            i <= PATTERN_WIDTH,
            forall|row: int|
                0 <= row < i ==> (#[trigger] msg_patterns@[row])@ == padded(
                    seq![],
                    PATTERN_WIDTH as nat,
                ),
        decreases PATTERN_WIDTH - i,
    {
        msg_patterns[i] = empty_row();
        i += 1;
    }
    let bytes = match handshake_pattern {
        HandshakePattern::N => {
            *premsg_pattern_i = premessage_row(false);
            *premsg_pattern_r = premessage_row(true);
            msg_patterns[0] = row2(Token::E, Token::ES);
            name1('N')
        },
        HandshakePattern::K => {
            *premsg_pattern_i = premessage_row(true);
            *premsg_pattern_r = premessage_row(true);
            msg_patterns[0] = row3(Token::E, Token::ES, Token::SS);
            name1('K')
        },
        HandshakePattern::X => {
            *premsg_pattern_i = premessage_row(false);
            *premsg_pattern_r = premessage_row(true);
            msg_patterns[0] = row4(Token::E, Token::ES, Token::S, Token::SS);
            name1('X')
        },
        HandshakePattern::NN => {
            *premsg_pattern_i = premessage_row(false);
            *premsg_pattern_r = premessage_row(false);
            msg_patterns[0] = row1(Token::E);
            msg_patterns[1] = row2(Token::E, Token::EE);
            name2('N', 'N')
        },
        HandshakePattern::NK => {
            *premsg_pattern_i = premessage_row(false);
            *premsg_pattern_r = premessage_row(true);
            msg_patterns[0] = row2(Token::E, Token::ES);
            msg_patterns[1] = row2(Token::E, Token::EE);
            name2('N', 'K')
        },
        HandshakePattern::NX => {
            *premsg_pattern_i = premessage_row(false);
            *premsg_pattern_r = premessage_row(false);
            msg_patterns[0] = row1(Token::E);
            msg_patterns[1] = row4(Token::E, Token::EE, Token::S, Token::ES);
            name2('N', 'X')
        },
        HandshakePattern::XN => {
            *premsg_pattern_i = premessage_row(false);
            *premsg_pattern_r = premessage_row(false);
            msg_patterns[0] = row1(Token::E);
            msg_patterns[1] = row2(Token::E, Token::EE);
            msg_patterns[2] = row2(Token::S, Token::SE);
            name2('X', 'N')
        },
        HandshakePattern::XK => {
            *premsg_pattern_i = premessage_row(false);
            *premsg_pattern_r = premessage_row(true);
            msg_patterns[0] = row2(Token::E, Token::ES);
            msg_patterns[1] = row2(Token::E, Token::EE);
            msg_patterns[2] = row2(Token::S, Token::SE);
            name2('X', 'K')
        },
        HandshakePattern::XX => {
            *premsg_pattern_i = premessage_row(false);
            *premsg_pattern_r = premessage_row(false);
            msg_patterns[0] = row1(Token::E);
            msg_patterns[1] = row4(Token::E, Token::EE, Token::S, Token::ES);
            msg_patterns[2] = row2(Token::S, Token::SE);
            name2('X', 'X')
        },
        HandshakePattern::KN => {
            *premsg_pattern_i = premessage_row(true);
            *premsg_pattern_r = premessage_row(false);
            msg_patterns[0] = row1(Token::E);
            msg_patterns[1] = row3(Token::E, Token::EE, Token::SE);
            name2('K', 'N')
        },
        HandshakePattern::KK => {
            *premsg_pattern_i = premessage_row(true);
            *premsg_pattern_r = premessage_row(true);
            msg_patterns[0] = row3(Token::E, Token::ES, Token::SS);
            msg_patterns[1] = row3(Token::E, Token::EE, Token::SE);
            name2('K', 'K')
        },
        HandshakePattern::KX => {
            *premsg_pattern_i = premessage_row(true);
            *premsg_pattern_r = premessage_row(false);
            msg_patterns[0] = row1(Token::E);
            msg_patterns[1] = row5(Token::E, Token::EE, Token::SE, Token::S, Token::ES);
            name2('K', 'X')
        },
        HandshakePattern::IN => {
            *premsg_pattern_i = premessage_row(false);
            *premsg_pattern_r = premessage_row(false);
            msg_patterns[0] = row2(Token::E, Token::S);
            msg_patterns[1] = row3(Token::E, Token::EE, Token::SE);
            name2('I', 'N')
        },
        HandshakePattern::IK => {
            *premsg_pattern_i = premessage_row(false);
            *premsg_pattern_r = premessage_row(true);
            msg_patterns[0] = row4(Token::E, Token::ES, Token::S, Token::SS);
            msg_patterns[1] = row3(Token::E, Token::EE, Token::SE);
            name2('I', 'K')
        },
        HandshakePattern::IX => {
            *premsg_pattern_i = premessage_row(false);
            *premsg_pattern_r = premessage_row(false);
            msg_patterns[0] = row2(Token::E, Token::S);
            msg_patterns[1] = row5(Token::E, Token::EE, Token::SE, Token::S, Token::ES);
            name2('I', 'X')
        },
    };
    proof {
        assert(bytes@ == pattern_name(handshake_pattern));
    }
    copy_memory(bytes.as_slice(), name)
}

/// Whether a party that is given a remote static key if `has_rs`, and a
/// remote ephemeral key if `has_re`, is given the keys that the other
/// party's pre-message row names: what a handshake asks before it starts.
pub fn premessage_keys_given(
    handshake_pattern: HandshakePattern,
    initiator: bool,
    has_rs: bool,
    has_re: bool,
) -> (out: bool)
    ensures
        out == premessage_keys_known(premessage_remote(handshake_pattern, initiator), has_rs, has_re),
{
    let mut name = [0u8; 2];
    let mut premsg_pattern_i = [Token::Empty, Token::Empty];
    let mut premsg_pattern_r = [Token::Empty, Token::Empty];
    let mut msg_patterns = [[Token::Empty; PATTERN_WIDTH]; PATTERN_WIDTH];
    resolve_handshake_pattern(
        handshake_pattern,
        &mut name,
        &mut premsg_pattern_i,
        &mut premsg_pattern_r,
        &mut msg_patterns,
    );
    let row = if initiator {
        premsg_pattern_r
    } else {
        premsg_pattern_i
    };
    let ghost tokens = premessage_remote(handshake_pattern, initiator);
    proof {
        lemma_pattern_well_formed(handshake_pattern);
    }
    let mut out = true;
    let mut j: usize = 0;
    while j < PREMESSAGE_WIDTH
        invariant
            j <= PREMESSAGE_WIDTH,
            tokens.len() <= PREMESSAGE_WIDTH,
            row@ == padded(tokens, PREMESSAGE_WIDTH as nat),
            out == premessage_keys_known(
                tokens.take(if j <= tokens.len() {
                    j as int
                } else {
                    tokens.len() as int
                }),
                has_rs,
                has_re,
            ),
        decreases PREMESSAGE_WIDTH - j,
    {
        let ghost before = tokens.take(
            if j <= tokens.len() {
                j as int
            } else {
                tokens.len() as int
            },
        );
        proof {
            assert(row@[j as int] == padded(tokens, PREMESSAGE_WIDTH as nat)[j as int]);
        }
        let missing = match row[j] {
            Token::S => !has_rs,
            Token::E => !has_re,
            _ => false,
        };
        if missing {
            out = false;
        }
        proof {
            if j < tokens.len() {
                let after = tokens.take(j + 1);
                assert(after[j as int] == tokens[j as int]);
                assert forall|i: int| 0 <= i < before.len() implies before[i] == after[i] by {}
                if premessage_keys_known(after, has_rs, has_re) {
                    assert forall|i: int| 0 <= i < before.len() implies {
                        &&& #[trigger] before[i] == Token::S ==> has_rs
                        &&& before[i] == Token::E ==> has_re
                    } by {
                        assert(before[i] == after[i]);
                    }
                }
            }
        }
        j += 1;
    }
    proof {
        assert(tokens.take(tokens.len() as int) =~= tokens);
    }
    out
}

} // verus!
