//! The wire codec for the closed message set the session speaks.
//!
//! One message per line: a message is encoded to payload bytes, the payload
//! is escaped so that it cannot contain the line delimiter, and a single
//! `\n` byte ends the frame.  Numbers travel little-endian; strings travel
//! as a character count followed by each character's scalar value; every
//! variant carries a leading tag byte.  Decoding is exact: trailing bytes
//! or an unknown tag reject the frame.

use vstd::prelude::*;
use vstd::string::StrSliceExecFns;
use vstd::utf8::is_scalar;
use vstd::utf8::char_is_scalar;
use vstd::utf8::char_u32_cast;
use crate::game::Difficulty;
use crate::text::push_char;

verus! {

/// Little-endian bytes of a 32-bit value.
pub open spec fn u32_le(n: u32) -> Seq<u8> {
    let r1 = n / 256;
    let r2 = r1 / 256;
    let r3 = r2 / 256;
    seq![(n % 256) as u8, (r1 % 256) as u8, (r2 % 256) as u8, (r3 % 256) as u8]
}

/// The 32-bit value read little-endian at `p`.
pub open spec fn sp_u32_at(b: Seq<u8>, p: int) -> u32
    recommends
        0 <= p,
        p + 4 <= b.len(),
{
    ((b[p] as int) + 256 * (b[p + 1] as int) + 65536 * (b[p + 2] as int) + 16777216 * (b[p + 3]
        as int)) as u32
}

/// Reading the little-endian bytes of `n` gives `n` back.
pub proof fn lemma_u32_at_of_le(b: Seq<u8>, p: int, n: u32)
    requires
        0 <= p,
        p + 4 <= b.len(),
        b.subrange(p, p + 4) =~= u32_le(n),
    ensures
        sp_u32_at(b, p) == n,
{
    let r1 = n / 256;
    let r2 = r1 / 256;
    let r3 = r2 / 256;
    assert(b[p] == u32_le(n)[0]);
    assert(b[p + 1] == u32_le(n)[1]);
    assert(b[p + 2] == u32_le(n)[2]);
    assert(b[p + 3] == u32_le(n)[3]);
    assert(n == 256 * r1 + n % 256);
    assert(r1 == 256 * r2 + r1 % 256);
    assert(r2 == 256 * r3 + r2 % 256);
    assert(r3 < 256);
    assert(r3 % 256 == r3);
}

/// Little-endian bytes of a 64-bit value.
pub open spec fn u64_le(n: u64) -> Seq<u8> {
    let r1 = n / 256;
    let r2 = r1 / 256;
    let r3 = r2 / 256;
    let r4 = r3 / 256;
    let r5 = r4 / 256;
    let r6 = r5 / 256;
    let r7 = r6 / 256;
    seq![
        (n % 256) as u8,
        (r1 % 256) as u8,
        (r2 % 256) as u8,
        (r3 % 256) as u8,
        (r4 % 256) as u8,
        (r5 % 256) as u8,
        (r6 % 256) as u8,
        (r7 % 256) as u8,
    ]
}

/// The 64-bit value read little-endian at `p`.
pub open spec fn sp_u64_at(b: Seq<u8>, p: int) -> u64
    recommends
        0 <= p,
        p + 8 <= b.len(),
{
    ((b[p] as int) + 256 * (b[p + 1] as int) + 65536 * (b[p + 2] as int) + 16777216 * (b[p + 3]
        as int) + 4294967296 * (b[p + 4] as int) + 1099511627776 * (b[p + 5] as int)
        + 281474976710656 * (b[p + 6] as int) + 72057594037927936 * (b[p + 7] as int)) as u64
}

/// Reading the little-endian bytes of `n` gives `n` back.
pub proof fn lemma_u64_at_of_le(b: Seq<u8>, p: int, n: u64)
    requires
        0 <= p,
        p + 8 <= b.len(),
        b.subrange(p, p + 8) =~= u64_le(n),
    ensures
        sp_u64_at(b, p) == n,
{
    let r1 = n / 256;
    let r2 = r1 / 256;
    let r3 = r2 / 256;
    let r4 = r3 / 256;
    let r5 = r4 / 256;
    let r6 = r5 / 256;
    let r7 = r6 / 256;
    assert(b[p] == u64_le(n)[0]);
    assert(b[p + 1] == u64_le(n)[1]);
    assert(b[p + 2] == u64_le(n)[2]);
    assert(b[p + 3] == u64_le(n)[3]);
    assert(b[p + 4] == u64_le(n)[4]);
    assert(b[p + 5] == u64_le(n)[5]);
    assert(b[p + 6] == u64_le(n)[6]);
    assert(b[p + 7] == u64_le(n)[7]);
    assert(n == 256 * r1 + n % 256);
    assert(r1 == 256 * r2 + r1 % 256);
    assert(r2 == 256 * r3 + r2 % 256);
    assert(r3 == 256 * r4 + r3 % 256);
    assert(r4 == 256 * r5 + r4 % 256);
    assert(r5 == 256 * r6 + r5 % 256);
    assert(r6 == 256 * r7 + r6 % 256);
    assert(r7 < 256);
    assert(r7 % 256 == r7);
}

/// Appends the little-endian bytes of `n`.
fn write_u32_le(out: &mut Vec<u8>, n: u32)
    ensures
        final(out)@ =~= old(out)@ + u32_le(n),
{
    let r1 = n / 256;
    let r2 = r1 / 256;
    let r3 = r2 / 256;
    out.push((n % 256) as u8);
    out.push((r1 % 256) as u8);
    out.push((r2 % 256) as u8);
    out.push((r3 % 256) as u8);
}

/// Appends the little-endian bytes of `n`.
fn write_u64_le(out: &mut Vec<u8>, n: u64)
    ensures
        final(out)@ =~= old(out)@ + u64_le(n),
{
    let r1 = n / 256;
    let r2 = r1 / 256;
    let r3 = r2 / 256;
    let r4 = r3 / 256;
    let r5 = r4 / 256;
    let r6 = r5 / 256;
    let r7 = r6 / 256;
    out.push((n % 256) as u8);
    out.push((r1 % 256) as u8);
    out.push((r2 % 256) as u8);
    out.push((r3 % 256) as u8);
    out.push((r4 % 256) as u8);
    out.push((r5 % 256) as u8);
    out.push((r6 % 256) as u8);
    out.push((r7 % 256) as u8);
}

/// Reads the 32-bit value at `p`.
fn read_u32_at(b: &Vec<u8>, p: usize) -> (r: u32)
    requires
        p + 4 <= b@.len(),
    ensures
        r == sp_u32_at(b@, p as int),
{
    let n = b.len();
    (b[p] as u32) + 256 * (b[p + 1] as u32) + 65536 * (b[p + 2] as u32) + 16777216 * (b[p + 3]
        as u32)
}

/// Reads the 64-bit value at `p`.
fn read_u64_at(b: &Vec<u8>, p: usize) -> (r: u64)
    requires
        p + 8 <= b@.len(),
    ensures
        r == sp_u64_at(b@, p as int),
{
    let n = b.len();
    (b[p] as u64) + 256 * (b[p + 1] as u64) + 65536 * (b[p + 2] as u64) + 16777216 * (b[p + 3]
        as u64) + 4294967296 * (b[p + 4] as u64) + 1099511627776 * (b[p + 5] as u64)
        + 281474976710656 * (b[p + 6] as u64) + 72057594037927936 * (b[p + 7] as u64)
}

/// Relies on char::from_u32: `Some` exactly on unicode scalar values, whose
/// code the returned character then carries.
#[verifier::external_body]
fn char_from_u32(v: u32) -> (r: Option<char>)
    ensures
        is_scalar(v) ==> r == Some(v as char),
        !is_scalar(v) ==> r is None,
{
    char::from_u32(v)
}

/// The payload bytes of a character sequence: each scalar value
/// little-endian, in order.
pub open spec fn chars_bytes(s: Seq<char>) -> Seq<u8>
    decreases s.len(),
{
    if s.len() == 0 {
        Seq::empty()
    } else {
        u32_le(s[0] as u32) + chars_bytes(s.subrange(1, s.len() as int))
    }
}

/// The payload bytes of a string: character count, then each character.
pub open spec fn str_bytes(s: Seq<char>) -> Seq<u8> {
    u64_le(s.len() as u64) + chars_bytes(s)
}

/// Character payloads concatenate.
pub proof fn lemma_chars_bytes_concat(s1: Seq<char>, s2: Seq<char>)
    ensures
        chars_bytes(s1 + s2) =~= chars_bytes(s1) + chars_bytes(s2),
    decreases s1.len(),
{
    if s1.len() == 0 {
        assert(s1 + s2 =~= s2);
    } else {
        let t1 = s1.subrange(1, s1.len() as int);
        lemma_chars_bytes_concat(t1, s2);
        assert((s1 + s2).subrange(1, (s1 + s2).len() as int) =~= t1 + s2);
        assert((s1 + s2)[0] == s1[0]);
    }
}

/// Each character contributes four bytes.
pub proof fn lemma_chars_bytes_len(s: Seq<char>)
    ensures
        chars_bytes(s).len() == 4 * s.len(),
    decreases s.len(),
{
    if s.len() > 0 {
        lemma_chars_bytes_len(s.subrange(1, s.len() as int));
    }
}

/// Parses `count` characters at `p`.
pub open spec fn sp_chars_at(b: Seq<u8>, p: int, count: nat) -> Option<Seq<char>>
    decreases count,
{
    if count == 0 {
        Some(Seq::empty())
    } else if 0 <= p && p + 4 <= b.len() {
        let code = sp_u32_at(b, p);
        if is_scalar(code) {
            match sp_chars_at(b, p + 4, (count - 1) as nat) {
                Some(rest) => Some(seq![code as char] + rest),
                None => None,
            }
        } else {
            None
        }
    } else {
        None
    }
}

/// Parses a string at `p`: count, then characters; gives the string and
/// the position just past it.
pub open spec fn sp_str_at(b: Seq<u8>, p: int) -> Option<(Seq<char>, int)> {
    if 0 <= p && p + 8 <= b.len() {
        let count = sp_u64_at(b, p);
        match sp_chars_at(b, p + 8, count as nat) {
            Some(s) => Some((s, p + 8 + 4 * (count as int))),
            None => None,
        }
    } else {
        None
    }
}

/// Parsing the encoded characters of `s` gives `s` back.
pub proof fn lemma_chars_at_of_bytes(b: Seq<u8>, p: int, s: Seq<char>)
    requires
        0 <= p,
        p + 4 * s.len() <= b.len(),
        b.subrange(p, p + 4 * s.len()) =~= chars_bytes(s),
    ensures
        sp_chars_at(b, p, s.len()) == Some(s),
    decreases s.len(),
{
    if s.len() > 0 {
        char_is_scalar(s[0]);
        let c0 = s[0] as u32;
        let tail = s.subrange(1, s.len() as int);
        lemma_chars_bytes_len(tail);
        assert(b.subrange(p, p + 4) =~= u32_le(c0));
        lemma_u32_at_of_le(b, p, c0);
        assert(is_scalar(c0));
        char_u32_cast(s[0], c0);
        assert((c0 as char) == s[0]);
        assert forall|k: int| 0 <= k < 4 * tail.len() implies b.subrange(
            p + 4,
            p + 4 + 4 * tail.len(),
        )[k] == chars_bytes(tail)[k] by {
            assert(b.subrange(p, p + 4 * s.len())[4 + k] == chars_bytes(s)[4 + k]);
        }
        assert(b.subrange(p + 4, p + 4 + 4 * tail.len()) =~= chars_bytes(tail));
        lemma_chars_at_of_bytes(b, p + 4, tail);
        assert(seq![s[0]] + tail =~= s);
    }
}

/// Parsing the encoded form of `s` gives `s` and the position past it.
pub proof fn lemma_str_at_of_bytes(b: Seq<u8>, p: int, s: Seq<char>)
    requires
        0 <= p,
        s.len() <= u64::MAX,
        p + 8 + 4 * s.len() <= b.len(),
        b.subrange(p, p + 8 + 4 * s.len()) =~= str_bytes(s),
    ensures
        sp_str_at(b, p) == Some((s, p + 8 + 4 * s.len())),
{
    let count = s.len() as u64;
    lemma_chars_bytes_len(s);
    assert(b.subrange(p, p + 8) =~= u64_le(count));
    lemma_u64_at_of_le(b, p, count);
    assert forall|k: int| 0 <= k < 4 * s.len() implies b.subrange(p + 8, p + 8 + 4 * s.len())[k]
        == chars_bytes(s)[k] by {
        assert(b.subrange(p, p + 8 + 4 * s.len())[8 + k] == str_bytes(s)[8 + k]);
    }
    assert(b.subrange(p + 8, p + 8 + 4 * s.len()) =~= chars_bytes(s));
    lemma_chars_at_of_bytes(b, p + 8, s);
}

/// Appends the payload bytes of `s`: character count, then each character.
fn write_str(out: &mut Vec<u8>, s: &str)
    ensures
        final(out)@ =~= old(out)@ + str_bytes(s@),
{
    let len = s.unicode_len();
    write_u64_le(out, len as u64);
    let ghost base = out@;
    let mut i: usize = 0;
    proof {
        assert(s@.subrange(0, 0) =~= Seq::<char>::empty());
    }
    while i < len
        invariant
            len == s@.len(),
            i <= len,
            out@ =~= base + chars_bytes(s@.subrange(0, i as int)),
        decreases len - i,
    {
        let c = s.get_char(i);
        write_u32_le(out, c as u32);
        proof {
            let pre = s@.subrange(0, i as int);
            let cur = s@.subrange(0, i as int + 1);
            let single = seq![s@[i as int]];
            assert(cur =~= pre + single);
            lemma_chars_bytes_concat(pre, single);
            assert(single.subrange(1, 1) =~= Seq::<char>::empty());
            assert(chars_bytes(Seq::<char>::empty()) =~= Seq::<u8>::empty());
            assert(chars_bytes(single) =~= u32_le(single[0] as u32) + chars_bytes(
                single.subrange(1, 1),
            ));
            assert(chars_bytes(single) =~= u32_le(s@[i as int] as u32));
        }
        i = i + 1;
    }
    proof {
        assert(s@.subrange(0, len as int) =~= s@);
    }
}

/// Parses `count` characters at `p`, building the string.
fn read_chars_at(b: &Vec<u8>, p: usize, count: u64) -> (r: Option<(String, usize)>)
    requires
        p <= b@.len(),
    ensures
        match r {
            Some(sq) => sp_chars_at(b@, p as int, count as nat) == Some(sq.0@) && sq.1 == p + 4 * (
            count as int) && sq.1 <= b@.len(),
            None => sp_chars_at(b@, p as int, count as nat) is None,
        },
{
    let n = b.len();
    let mut acc = String::new();
    let mut cur = p;
    let mut i: u64 = 0;
    proof {
        match sp_chars_at(b@, p as int, count as nat) {
            Some(rest) => {
                assert(Seq::<char>::empty() + rest =~= rest);
            },
            None => {},
        }
    }
    while i < count
        invariant
            n == b@.len(),
            i <= count,
            cur == p + 4 * (i as int),
            cur <= n,
            (match sp_chars_at(b@, cur as int, (count - i) as nat) {
                Some(rest) => sp_chars_at(b@, p as int, count as nat) == Some(acc@ + rest),
                None => sp_chars_at(b@, p as int, count as nat) is None,
            }),
        decreases count - i,
    {
        if n - cur < 4 {
            return None;
        }
        let code = read_u32_at(b, cur);
        match char_from_u32(code) {
            Some(c) => {
                let ghost acc0 = acc@;
                push_char(&mut acc, c);
                proof {
                    let tail_opt = sp_chars_at(b@, cur as int + 4, (count - i - 1) as nat);
                    match tail_opt {
                        Some(rest2) => {
                            assert(sp_chars_at(b@, cur as int, (count - i) as nat) == Some(
                                seq![c] + rest2,
                            ));
                            assert(acc0 + (seq![c] + rest2) =~= acc@ + rest2);
                        },
                        None => {},
                    }
                }
                cur = cur + 4;
                i = i + 1;
            },
            None => {
                return None;
            },
        }
    }
    proof {
        assert(acc@ + Seq::<char>::empty() =~= acc@);
    }
    Some((acc, cur))
}

/// Parses a string at `p`: count, then characters.
fn read_str_at(b: &Vec<u8>, p: usize) -> (r: Option<(String, usize)>)
    ensures
        match r {
            Some(sq) => sp_str_at(b@, p as int) == Some((sq.0@, sq.1 as int)) && sq.1 <= b@.len(),
            None => sp_str_at(b@, p as int) is None,
        },
{
    let n = b.len();
    if p > n || n - p < 8 {
        return None;
    }
    let count = read_u64_at(b, p);
    read_chars_at(b, p + 8, count)
}

/// What the server sends to clients.
#[derive(Clone, Debug, PartialEq, Eq)]
pub enum ServerMessage {
    /// The voting countdown started, with this many seconds on the clock.
    TimerStart(u32),
    /// The round starts, played at this difficulty.
    GameStart(Difficulty),
    /// The hint answering one client's own guess.
    Hint(String),
    /// The named player guessed the secret.
    PlayerWon(String),
    /// The round is over.
    GameEnd,
    /// Broadcast notice of someone's attempt: the value and the guesser.
    Guess(u32, String),
    /// Broadcast notice of a difficulty vote.
    DifficultyVote(Difficulty),
    /// The currently registered player names.
    PlayerList(Vec<String>),
}

/// What a client sends to the server.
#[derive(Clone, Debug, PartialEq, Eq)]
pub enum ClientMessage {
    /// A guess at the secret.
    Guess(u32),
    /// A vote for a difficulty tier.
    DifficultyVote(Difficulty),
    /// A request to join under this name.
    Join(String),
    /// A request for the player list.
    RequestPlayers,
}

/// The mathematical reading of a server message: strings as their
/// character sequences.
pub enum ServerMsgV {
    TimerStart(u32),
    GameStart(Difficulty),
    Hint(Seq<char>),
    PlayerWon(Seq<char>),
    GameEnd,
    Guess(u32, Seq<char>),
    DifficultyVote(Difficulty),
    PlayerList(Seq<Seq<char>>),
}

/// The mathematical reading of a client message.
pub enum ClientMsgV {
    Guess(u32),
    DifficultyVote(Difficulty),
    Join(Seq<char>),
    RequestPlayers,
}

impl View for ServerMessage {
    type V = ServerMsgV;

    open spec fn view(&self) -> ServerMsgV {
        match self {
            ServerMessage::TimerStart(n) => ServerMsgV::TimerStart(*n),
            ServerMessage::GameStart(d) => ServerMsgV::GameStart(*d),
            ServerMessage::Hint(s) => ServerMsgV::Hint(s@),
            ServerMessage::PlayerWon(s) => ServerMsgV::PlayerWon(s@),
            ServerMessage::GameEnd => ServerMsgV::GameEnd,
            ServerMessage::Guess(n, s) => ServerMsgV::Guess(*n, s@),
            ServerMessage::DifficultyVote(d) => ServerMsgV::DifficultyVote(*d),
            ServerMessage::PlayerList(names) => ServerMsgV::PlayerList(names.deep_view()),
        }
    }
}

impl View for ClientMessage {
    type V = ClientMsgV;

    open spec fn view(&self) -> ClientMsgV {
        match self {
            ClientMessage::Guess(n) => ClientMsgV::Guess(*n),
            ClientMessage::DifficultyVote(d) => ClientMsgV::DifficultyVote(*d),
            ClientMessage::Join(s) => ClientMsgV::Join(s@),
            ClientMessage::RequestPlayers => ClientMsgV::RequestPlayers,
        }
    }
}

/// The tag byte of a difficulty tier.
pub open spec fn diff_byte(d: Difficulty) -> u8 {
    match d {
        Difficulty::Easy => 0u8,
        Difficulty::Medium => 1u8,
        Difficulty::Hard => 2u8,
    }
}

/// The difficulty tier of a tag byte, if any.
pub open spec fn sp_byte_diff(x: u8) -> Option<Difficulty> {
    if x == 0 {
        Some(Difficulty::Easy)
    } else if x == 1 {
        Some(Difficulty::Medium)
    } else if x == 2 {
        Some(Difficulty::Hard)
    } else {
        None
    }
}

fn diff_to_byte(d: Difficulty) -> (r: u8)
    ensures
        r == diff_byte(d),
{
    match d {
        Difficulty::Easy => 0,
        Difficulty::Medium => 1,
        Difficulty::Hard => 2,
    }
}

fn byte_to_diff(x: u8) -> (r: Option<Difficulty>)
    ensures
        r == sp_byte_diff(x),
{
    if x == 0 {
        Some(Difficulty::Easy)
    } else if x == 1 {
        Some(Difficulty::Medium)
    } else if x == 2 {
        Some(Difficulty::Hard)
    } else {
        None
    }
}

/// The payload bytes of a name list: each string in order.
pub open spec fn list_bytes(names: Seq<Seq<char>>) -> Seq<u8>
    decreases names.len(),
{
    if names.len() == 0 {
        Seq::empty()
    } else {
        str_bytes(names[0]) + list_bytes(names.subrange(1, names.len() as int))
    }
}

/// Parses `count` strings at `p`, giving them and the position past them.
pub open spec fn sp_list_at(b: Seq<u8>, p: int, count: nat) -> Option<(Seq<Seq<char>>, int)>
    decreases count,
{
    if count == 0 {
        Some((Seq::empty(), p))
    } else {
        match sp_str_at(b, p) {
            Some(sq) => match sp_list_at(b, sq.1, (count - 1) as nat) {
                Some(rq) => Some((seq![sq.0] + rq.0, rq.1)),
                None => None,
            },
            None => None,
        }
    }
}

/// Every string of the list fits the length prefix.
pub open spec fn names_wf(names: Seq<Seq<char>>) -> bool {
    forall|i: int| 0 <= i < names.len() ==> (#[trigger] names[i]).len() <= u64::MAX
}

/// Every length in the message fits its length prefix; true of any message
/// that exists in memory.
pub open spec fn server_msg_wf(m: ServerMsgV) -> bool {
    match m {
        ServerMsgV::Hint(s) => s.len() <= u64::MAX,
        ServerMsgV::PlayerWon(s) => s.len() <= u64::MAX,
        ServerMsgV::Guess(_, s) => s.len() <= u64::MAX,
        ServerMsgV::PlayerList(names) => names.len() <= u64::MAX && names_wf(names),
        _ => true,
    }
}

/// Every length in the message fits its length prefix.
pub open spec fn client_msg_wf(m: ClientMsgV) -> bool {
    match m {
        ClientMsgV::Join(s) => s.len() <= u64::MAX,
        _ => true,
    }
}

/// The payload bytes of a server message: a tag byte, then the fields.
pub open spec fn spec_encode_server(m: ServerMsgV) -> Seq<u8> {
    match m {
        ServerMsgV::TimerStart(n) => seq![0u8] + u32_le(n),
        ServerMsgV::GameStart(d) => seq![1u8, diff_byte(d)],
        ServerMsgV::Hint(s) => seq![2u8] + str_bytes(s),
        ServerMsgV::PlayerWon(s) => seq![3u8] + str_bytes(s),
        ServerMsgV::GameEnd => seq![4u8],
        ServerMsgV::Guess(n, s) => seq![5u8] + u32_le(n) + str_bytes(s),
        ServerMsgV::DifficultyVote(d) => seq![6u8, diff_byte(d)],
        ServerMsgV::PlayerList(names) => seq![7u8] + u64_le(names.len() as u64) + list_bytes(
            names,
        ),
    }
}

/// The payload bytes of a client message: a tag byte, then the fields.
pub open spec fn spec_encode_client(m: ClientMsgV) -> Seq<u8> {
    match m {
        ClientMsgV::Guess(n) => seq![0u8] + u32_le(n),
        ClientMsgV::DifficultyVote(d) => seq![1u8, diff_byte(d)],
        ClientMsgV::Join(s) => seq![2u8] + str_bytes(s),
        ClientMsgV::RequestPlayers => seq![3u8],
    }
}

/// Decodes a server message from exactly the whole payload.
pub open spec fn spec_decode_server(b: Seq<u8>) -> Option<ServerMsgV> {
    if b.len() < 1 {
        None
    } else {
        let tag = b[0];
        if tag == 0 {
            if b.len() == 5 {
                Some(ServerMsgV::TimerStart(sp_u32_at(b, 1)))
            } else {
                None
            }
        } else if tag == 1 {
            if b.len() == 2 {
                match sp_byte_diff(b[1]) {
                    Some(d) => Some(ServerMsgV::GameStart(d)),
                    None => None,
                }
            } else {
                None
            }
        } else if tag == 2 {
            match sp_str_at(b, 1) {
                Some(sq) => if sq.1 == b.len() {
                    Some(ServerMsgV::Hint(sq.0))
                } else {
                    None
                },
                None => None,
            }
        } else if tag == 3 {
            match sp_str_at(b, 1) {
                Some(sq) => if sq.1 == b.len() {
                    Some(ServerMsgV::PlayerWon(sq.0))
                } else {
                    None
                },
                None => None,
            }
        } else if tag == 4 {
            if b.len() == 1 {
                Some(ServerMsgV::GameEnd)
            } else {
                None
            }
        } else if tag == 5 {
            if b.len() < 5 {
                None
            } else {
                match sp_str_at(b, 5) {
                    Some(sq) => if sq.1 == b.len() {
                        Some(ServerMsgV::Guess(sp_u32_at(b, 1), sq.0))
                    } else {
                        None
                    },
                    None => None,
                }
            }
        } else if tag == 6 {
            if b.len() == 2 {
                match sp_byte_diff(b[1]) {
                    Some(d) => Some(ServerMsgV::DifficultyVote(d)),
                    None => None,
                }
            } else {
                None
            }
        } else if tag == 7 {
            if b.len() < 9 {
                None
            } else {
                let count = sp_u64_at(b, 1);
                match sp_list_at(b, 9, count as nat) {
                    Some(rq) => if rq.1 == b.len() {
                        Some(ServerMsgV::PlayerList(rq.0))
                    } else {
                        None
                    },
                    None => None,
                }
            }
        } else {
            None
        }
    }
}

/// Decodes a client message from exactly the whole payload.
pub open spec fn spec_decode_client(b: Seq<u8>) -> Option<ClientMsgV> {
    if b.len() < 1 {
        None
    } else {
        let tag = b[0];
        if tag == 0 {
            if b.len() == 5 {
                Some(ClientMsgV::Guess(sp_u32_at(b, 1)))
            } else {
                None
            }
        } else if tag == 1 {
            if b.len() == 2 {
                match sp_byte_diff(b[1]) {
                    Some(d) => Some(ClientMsgV::DifficultyVote(d)),
                    None => None,
                }
            } else {
                None
            }
        } else if tag == 2 {
            match sp_str_at(b, 1) {
                Some(sq) => if sq.1 == b.len() {
                    Some(ClientMsgV::Join(sq.0))
                } else {
                    None
                },
                None => None,
            }
        } else if tag == 3 {
            if b.len() == 1 {
                Some(ClientMsgV::RequestPlayers)
            } else {
                None
            }
        } else {
            None
        }
    }
}

/// Parsing the encoded form of a name list gives the list and the position
/// past it.
pub proof fn lemma_list_at_of_bytes(b: Seq<u8>, p: int, names: Seq<Seq<char>>)
    requires
        0 <= p,
        names_wf(names),
        p + list_bytes(names).len() <= b.len(),
        b.subrange(p, p + list_bytes(names).len()) =~= list_bytes(names),
    ensures
        sp_list_at(b, p, names.len()) == Some((names, p + list_bytes(names).len())),
    decreases names.len(),
{
    if names.len() > 0 {
        let s0 = names[0];
        let tail = names.subrange(1, names.len() as int);
        lemma_chars_bytes_len(s0);
        let l0 = str_bytes(s0).len() as int;
        assert(l0 == 8 + 4 * s0.len());
        assert forall|k: int| 0 <= k < l0 implies b.subrange(p, p + l0)[k] == str_bytes(s0)[k] by {
            assert(b.subrange(p, p + list_bytes(names).len())[k] == list_bytes(names)[k]);
        }
        assert(b.subrange(p, p + l0) =~= str_bytes(s0));
        lemma_str_at_of_bytes(b, p, s0);
        let lt = list_bytes(tail).len() as int;
        assert forall|k: int| 0 <= k < lt implies b.subrange(p + l0, p + l0 + lt)[k] == list_bytes(
            tail,
        )[k] by {
            assert(b.subrange(p, p + list_bytes(names).len())[l0 + k] == list_bytes(names)[l0 + k]);
        }
        assert(b.subrange(p + l0, p + l0 + lt) =~= list_bytes(tail));
        assert(names_wf(tail)) by {
            assert forall|i: int| 0 <= i < tail.len() implies (#[trigger] tail[i]).len()
                <= u64::MAX by {
                assert(tail[i] == names[i + 1]);
            }
        }
        lemma_list_at_of_bytes(b, p + l0, tail);
        assert(seq![s0] + tail =~= names);
    }
}

/// Round trip: decoding the encoded payload of a server message gives the
/// message back, for every variant.
pub proof fn lemma_server_round_trip(m: ServerMsgV)
    requires
        server_msg_wf(m),
    ensures
        spec_decode_server(spec_encode_server(m)) == Some(m),
{
    match m {
        ServerMsgV::TimerStart(n) => {
            lemma_rt_server_timer(n);
        },
        ServerMsgV::GameStart(d) => {
            lemma_rt_server_game_start(d);
        },
        ServerMsgV::Hint(s) => {
            lemma_rt_server_hint(s);
        },
        ServerMsgV::PlayerWon(s) => {
            lemma_rt_server_player_won(s);
        },
        ServerMsgV::GameEnd => {},
        ServerMsgV::Guess(n, s) => {
            lemma_rt_server_guess(n, s);
        },
        ServerMsgV::DifficultyVote(d) => {
            lemma_rt_server_vote(d);
        },
        ServerMsgV::PlayerList(names) => {
            lemma_rt_server_player_list(names);
        },
    }
}

proof fn lemma_rt_server_timer(n: u32)
    ensures
        spec_decode_server(spec_encode_server(ServerMsgV::TimerStart(n))) == Some(
            ServerMsgV::TimerStart(n),
        ),
{
    let b = spec_encode_server(ServerMsgV::TimerStart(n));
    assert(b.subrange(1, 5) =~= u32_le(n));
    lemma_u32_at_of_le(b, 1, n);
}

proof fn lemma_rt_server_game_start(d: Difficulty)
    ensures
        spec_decode_server(spec_encode_server(ServerMsgV::GameStart(d))) == Some(
            ServerMsgV::GameStart(d),
        ),
{
    let b = spec_encode_server(ServerMsgV::GameStart(d));
    assert(b[1] == diff_byte(d));
}

proof fn lemma_rt_server_hint(s: Seq<char>)
    requires
        s.len() <= u64::MAX,
    ensures
        spec_decode_server(spec_encode_server(ServerMsgV::Hint(s))) == Some(ServerMsgV::Hint(s)),
{
    let b = spec_encode_server(ServerMsgV::Hint(s));
    lemma_chars_bytes_len(s);
    assert(b.subrange(1, 1 + 8 + 4 * s.len() as int) =~= str_bytes(s));
    lemma_str_at_of_bytes(b, 1, s);
}

proof fn lemma_rt_server_player_won(s: Seq<char>)
    requires
        s.len() <= u64::MAX,
    ensures
        spec_decode_server(spec_encode_server(ServerMsgV::PlayerWon(s))) == Some(
            ServerMsgV::PlayerWon(s),
        ),
{
    let b = spec_encode_server(ServerMsgV::PlayerWon(s));
    lemma_chars_bytes_len(s);
    assert(b.subrange(1, 1 + 8 + 4 * s.len() as int) =~= str_bytes(s));
    lemma_str_at_of_bytes(b, 1, s);
}

proof fn lemma_rt_server_guess(n: u32, s: Seq<char>)
    requires
        s.len() <= u64::MAX,
    ensures
        spec_decode_server(spec_encode_server(ServerMsgV::Guess(n, s))) == Some(
            ServerMsgV::Guess(n, s),
        ),
{
    let b = spec_encode_server(ServerMsgV::Guess(n, s));
    lemma_chars_bytes_len(s);
    assert(b.subrange(1, 5) =~= u32_le(n));
    lemma_u32_at_of_le(b, 1, n);
    assert(b.subrange(5, 5 + 8 + 4 * s.len() as int) =~= str_bytes(s));
    lemma_str_at_of_bytes(b, 5, s);
}

proof fn lemma_rt_server_vote(d: Difficulty)
    ensures
        spec_decode_server(spec_encode_server(ServerMsgV::DifficultyVote(d))) == Some(
            ServerMsgV::DifficultyVote(d),
        ),
{
    let b = spec_encode_server(ServerMsgV::DifficultyVote(d));
    assert(b[1] == diff_byte(d));
}

proof fn lemma_rt_server_player_list(names: Seq<Seq<char>>)
    requires
        names.len() <= u64::MAX,
        names_wf(names),
    ensures
        spec_decode_server(spec_encode_server(ServerMsgV::PlayerList(names))) == Some(
            ServerMsgV::PlayerList(names),
        ),
{
    let b = spec_encode_server(ServerMsgV::PlayerList(names));
    let count = names.len() as u64;
    assert(b.subrange(1, 9) =~= u64_le(count));
    lemma_u64_at_of_le(b, 1, count);
    assert(b.subrange(9, 9 + list_bytes(names).len() as int) =~= list_bytes(names));
    lemma_list_at_of_bytes(b, 9, names);
}

/// Round trip: decoding the encoded payload of a client message gives the
/// message back, for every variant.
pub proof fn lemma_client_round_trip(m: ClientMsgV)
    requires
        client_msg_wf(m),
    ensures
        spec_decode_client(spec_encode_client(m)) == Some(m),
{
    let b = spec_encode_client(m);
    match m {
        ClientMsgV::Guess(n) => {
            assert(b.subrange(1, 5) =~= u32_le(n));
            lemma_u32_at_of_le(b, 1, n);
        },
        ClientMsgV::DifficultyVote(d) => {
            assert(b[1] == diff_byte(d));
        },
        ClientMsgV::Join(s) => {
            lemma_chars_bytes_len(s);
            assert(b.subrange(1, 1 + 8 + 4 * s.len() as int) =~= str_bytes(s));
            lemma_str_at_of_bytes(b, 1, s);
        },
        ClientMsgV::RequestPlayers => {},
    }
}

/// Name-list payloads concatenate.
proof fn lemma_list_bytes_concat(s1: Seq<Seq<char>>, s2: Seq<Seq<char>>)
    ensures
        list_bytes(s1 + s2) =~= list_bytes(s1) + list_bytes(s2),
    decreases s1.len(),
{
    if s1.len() == 0 {
        assert(s1 + s2 =~= s2);
    } else {
        let t1 = s1.subrange(1, s1.len() as int);
        lemma_list_bytes_concat(t1, s2);
        assert((s1 + s2).subrange(1, (s1 + s2).len() as int) =~= t1 + s2);
        assert((s1 + s2)[0] == s1[0]);
    }
}

/// Encodes a server message to its payload bytes.
pub fn encode_server_message(m: &ServerMessage) -> (r: Vec<u8>)
    ensures
        r@ =~= spec_encode_server(m@),
{
    let mut out: Vec<u8> = Vec::new();
    match m {
        ServerMessage::TimerStart(n) => {
            out.push(0);
            write_u32_le(&mut out, *n);
            proof {
                assert(out@ =~= seq![0u8] + u32_le(*n));
            }
        },
        ServerMessage::GameStart(d) => {
            out.push(1);
            out.push(diff_to_byte(*d));
            proof {
                assert(out@ =~= seq![1u8, diff_byte(*d)]);
            }
        },
        ServerMessage::Hint(s) => {
            out.push(2);
            write_str(&mut out, s.as_str());
            proof {
                assert(out@ =~= seq![2u8] + str_bytes(s@));
            }
        },
        ServerMessage::PlayerWon(s) => {
            out.push(3);
            write_str(&mut out, s.as_str());
            proof {
                assert(out@ =~= seq![3u8] + str_bytes(s@));
            }
        },
        ServerMessage::GameEnd => {
            out.push(4);
            proof {
                assert(out@ =~= seq![4u8]);
            }
        },
        ServerMessage::Guess(n, s) => {
            out.push(5);
            write_u32_le(&mut out, *n);
            write_str(&mut out, s.as_str());
            proof {
                assert(out@ =~= seq![5u8] + u32_le(*n) + str_bytes(s@));
            }
        },
        ServerMessage::DifficultyVote(d) => {
            out.push(6);
            out.push(diff_to_byte(*d));
            proof {
                assert(out@ =~= seq![6u8, diff_byte(*d)]);
            }
        },
        ServerMessage::PlayerList(names) => {
            out.push(7);
            let cnt = names.len();
            write_u64_le(&mut out, cnt as u64);
            let ghost base = out@;
            let ghost dv = names.deep_view();
            proof {
                assert(dv.subrange(0, 0) =~= Seq::<Seq<char>>::empty());
            }
            let mut i: usize = 0;
            while i < cnt
                invariant
                    cnt == names@.len(),
                    dv == names.deep_view(),
                    i <= cnt,
                    out@ =~= base + list_bytes(dv.subrange(0, i as int)),
                decreases cnt - i,
            {
                write_str(&mut out, names[i].as_str());
                proof {
                    let pre = dv.subrange(0, i as int);
                    let cur = dv.subrange(0, i as int + 1);
                    let single = seq![dv[i as int]];
                    assert(cur =~= pre + single);
                    lemma_list_bytes_concat(pre, single);
                    assert(single.subrange(1, 1) =~= Seq::<Seq<char>>::empty());
                    assert(list_bytes(Seq::<Seq<char>>::empty()) =~= Seq::<u8>::empty());
                    assert(list_bytes(single) =~= str_bytes(single[0]) + list_bytes(
                        single.subrange(1, 1),
                    ));
                    assert(dv[i as int] == names@[i as int]@);
                    assert(list_bytes(single) =~= str_bytes(names@[i as int]@));
                }
                i = i + 1;
            }
            proof {
                assert(dv.subrange(0, cnt as int) =~= dv);
                assert(out@ =~= seq![7u8] + u64_le(cnt as u64) + list_bytes(dv));
            }
        },
    }
    out
}

/// Encodes a client message to its payload bytes.
pub fn encode_client_message(m: &ClientMessage) -> (r: Vec<u8>)
    ensures
        r@ =~= spec_encode_client(m@),
{
    let mut out: Vec<u8> = Vec::new();
    match m {
        ClientMessage::Guess(n) => {
            out.push(0);
            write_u32_le(&mut out, *n);
            proof {
                assert(out@ =~= seq![0u8] + u32_le(*n));
            }
        },
        ClientMessage::DifficultyVote(d) => {
            out.push(1);
            out.push(diff_to_byte(*d));
            proof {
                assert(out@ =~= seq![1u8, diff_byte(*d)]);
            }
        },
        ClientMessage::Join(s) => {
            out.push(2);
            write_str(&mut out, s.as_str());
            proof {
                assert(out@ =~= seq![2u8] + str_bytes(s@));
            }
        },
        ClientMessage::RequestPlayers => {
            out.push(3);
            proof {
                assert(out@ =~= seq![3u8]);
            }
        },
    }
    out
}

/// Parses `count` strings at `p`, building the list.
fn read_list_at(b: &Vec<u8>, p: usize, count: u64) -> (r: Option<(Vec<String>, usize)>)
    requires
        p <= b@.len(),
    ensures
        match r {
            Some(lq) => sp_list_at(b@, p as int, count as nat) == Some(
                (lq.0.deep_view(), lq.1 as int),
            ) && lq.1 <= b@.len(),
            None => sp_list_at(b@, p as int, count as nat) is None,
        },
{
    let mut acc: Vec<String> = Vec::new();
    let mut cur = p;
    let mut i: u64 = 0;
    proof {
        match sp_list_at(b@, p as int, count as nat) {
            Some(rq) => {
                assert(Seq::<Seq<char>>::empty() + rq.0 =~= rq.0);
                assert(acc.deep_view() =~= Seq::<Seq<char>>::empty());
            },
            None => {},
        }
    }
    while i < count
        invariant
            cur <= b@.len(),
            i <= count,
            (match sp_list_at(b@, cur as int, (count - i) as nat) {
                Some(rq) => sp_list_at(b@, p as int, count as nat) == Some(
                    (acc.deep_view() + rq.0, rq.1),
                ),
                None => sp_list_at(b@, p as int, count as nat) is None,
            }),
        decreases count - i,
    {
        match read_str_at(b, cur) {
            Some(sq) => {
                let (s, q) = sq;
                let ghost acc0 = acc.deep_view();
                acc.push(s);
                proof {
                    assert(acc.deep_view() =~= acc0 + seq![s@]);
                    match sp_list_at(b@, q as int, (count - i - 1) as nat) {
                        Some(rq2) => {
                            assert(sp_list_at(b@, cur as int, (count - i) as nat) == Some(
                                (seq![s@] + rq2.0, rq2.1),
                            ));
                            assert(acc0 + (seq![s@] + rq2.0) =~= acc.deep_view() + rq2.0);
                        },
                        None => {},
                    }
                }
                cur = q;
                i = i + 1;
            },
            None => {
                return None;
            },
        }
    }
    proof {
        assert(acc.deep_view() + Seq::<Seq<char>>::empty() =~= acc.deep_view());
    }
    Some((acc, cur))
}

/// Decodes a server message from exactly the whole payload.
pub fn decode_server_message(b: &Vec<u8>) -> (r: Option<ServerMessage>)
    ensures
        match r {
            Some(m) => spec_decode_server(b@) == Some(m@),
            None => spec_decode_server(b@) is None,
        },
{
    let n = b.len();
    if n < 1 {
        return None;
    }
    let tag = b[0];
    if tag == 0 {
        if n == 5 {
            Some(ServerMessage::TimerStart(read_u32_at(b, 1)))
        } else {
            None
        }
    } else if tag == 1 {
        if n == 2 {
            match byte_to_diff(b[1]) {
                Some(d) => Some(ServerMessage::GameStart(d)),
                None => None,
            }
        } else {
            None
        }
    } else if tag == 2 {
        match read_str_at(b, 1) {
            Some(sq) => if sq.1 == n {
                Some(ServerMessage::Hint(sq.0))
            } else {
                None
            },
            None => None,
        }
    } else if tag == 3 {
        match read_str_at(b, 1) {
            Some(sq) => if sq.1 == n {
                Some(ServerMessage::PlayerWon(sq.0))
            } else {
                None
            },
            None => None,
        }
    } else if tag == 4 {
        if n == 1 {
            Some(ServerMessage::GameEnd)
        } else {
            None
        }
    } else if tag == 5 {
        if n < 5 {
            None
        } else {
            let v = read_u32_at(b, 1);
            match read_str_at(b, 5) {
                Some(sq) => if sq.1 == n {
                    Some(ServerMessage::Guess(v, sq.0))
                } else {
                    None
                },
                None => None,
            }
        }
    } else if tag == 6 {
        if n == 2 {
            match byte_to_diff(b[1]) {
                Some(d) => Some(ServerMessage::DifficultyVote(d)),
                None => None,
            }
        } else {
            None
        }
    } else if tag == 7 {
        if n < 9 {
            None
        } else {
            let count = read_u64_at(b, 1);
            match read_list_at(b, 9, count) {
                Some(lq) => if lq.1 == n {
                    Some(ServerMessage::PlayerList(lq.0))
                } else {
                    None
                },
                None => None,
            }
        }
    } else {
        None
    }
}

/// Decodes a client message from exactly the whole payload.
pub fn decode_client_message(b: &Vec<u8>) -> (r: Option<ClientMessage>)
    ensures
        match r {
            Some(m) => spec_decode_client(b@) == Some(m@),
            None => spec_decode_client(b@) is None,
        },
{
    let n = b.len();
    if n < 1 {
        return None;
    }
    let tag = b[0];
    if tag == 0 {
        if n == 5 {
            Some(ClientMessage::Guess(read_u32_at(b, 1)))
        } else {
            None
        }
    } else if tag == 1 {
        if n == 2 {
            match byte_to_diff(b[1]) {
                Some(d) => Some(ClientMessage::DifficultyVote(d)),
                None => None,
            }
        } else {
            None
        }
    } else if tag == 2 {
        match read_str_at(b, 1) {
            Some(sq) => if sq.1 == n {
                Some(ClientMessage::Join(sq.0))
            } else {
                None
            },
            None => None,
        }
    } else if tag == 3 {
        if n == 1 {
            Some(ClientMessage::RequestPlayers)
        } else {
            None
        }
    } else {
        None
    }
}

/// The escaped form of a payload: the escape byte doubles itself and the
/// delimiter travels as an escape pair, so no escaped byte is the
/// delimiter.
pub open spec fn spec_escape(p: Seq<u8>) -> Seq<u8>
    decreases p.len(),
{
    if p.len() == 0 {
        Seq::empty()
    } else {
        let head = if p[0] == 27 {
            seq![27u8, 27u8]
        } else if p[0] == 10 {
            seq![27u8, 110u8]
        } else {
            seq![p[0]]
        };
        head + spec_escape(p.subrange(1, p.len() as int))
    }
}

/// The payload a received line stands for, undoing the escapes; `None` on
/// a malformed line.
pub open spec fn spec_unescape(b: Seq<u8>) -> Option<Seq<u8>>
    decreases b.len(),
{
    if b.len() == 0 {
        Some(Seq::empty())
    } else if b[0] == 27 {
        if b.len() >= 2 {
            let c = if b[1] == 27 {
                Some(27u8)
            } else if b[1] == 110 {
                Some(10u8)
            } else {
                None
            };
            match c {
                Some(x) => match spec_unescape(b.subrange(2, b.len() as int)) {
                    Some(rest) => Some(seq![x] + rest),
                    None => None,
                },
                None => None,
            }
        } else {
            None
        }
    } else if b[0] == 10 {
        None
    } else {
        match spec_unescape(b.subrange(1, b.len() as int)) {
            Some(rest) => Some(seq![b[0]] + rest),
            None => None,
        }
    }
}

/// Escaped payloads concatenate.
proof fn lemma_escape_concat(s1: Seq<u8>, s2: Seq<u8>)
    ensures
        spec_escape(s1 + s2) =~= spec_escape(s1) + spec_escape(s2),
    decreases s1.len(),
{
    if s1.len() == 0 {
        assert(s1 + s2 =~= s2);
    } else {
        let t1 = s1.subrange(1, s1.len() as int);
        lemma_escape_concat(t1, s2);
        assert((s1 + s2).subrange(1, (s1 + s2).len() as int) =~= t1 + s2);
        assert((s1 + s2)[0] == s1[0]);
    }
}

/// No escaped byte is the line delimiter.
pub proof fn lemma_escape_no_delimiter(p: Seq<u8>)
    ensures
        forall|i: int| 0 <= i < spec_escape(p).len() ==> spec_escape(p)[i] != 10u8,
    decreases p.len(),
{
    if p.len() > 0 {
        let tail = p.subrange(1, p.len() as int);
        lemma_escape_no_delimiter(tail);
        let head = if p[0] == 27 {
            seq![27u8, 27u8]
        } else if p[0] == 10 {
            seq![27u8, 110u8]
        } else {
            seq![p[0]]
        };
        assert forall|i: int| 0 <= i < spec_escape(p).len() implies spec_escape(p)[i] != 10u8 by {
            if i < head.len() {
                assert(spec_escape(p)[i] == head[i]);
            } else {
                assert(spec_escape(p)[i] == spec_escape(tail)[i - head.len()]);
            }
        }
    }
}

/// Undoing the escapes of an escaped payload gives the payload back.
pub proof fn lemma_unescape_escape(p: Seq<u8>)
    ensures
        spec_unescape(spec_escape(p)) == Some(p),
    decreases p.len(),
{
    if p.len() > 0 {
        let tail = p.subrange(1, p.len() as int);
        lemma_unescape_escape(tail);
        let b = spec_escape(p);
        if p[0] == 27 {
            assert(b.subrange(2, b.len() as int) =~= spec_escape(tail));
            assert(seq![27u8] + tail =~= p);
        } else if p[0] == 10 {
            assert(b.subrange(2, b.len() as int) =~= spec_escape(tail));
            assert(seq![10u8] + tail =~= p);
        } else {
            assert(b.subrange(1, b.len() as int) =~= spec_escape(tail));
            assert(seq![p[0]] + tail =~= p);
        }
    }
}

/// Escapes a payload.
pub fn escape_payload(p: &Vec<u8>) -> (r: Vec<u8>)
    ensures
        r@ =~= spec_escape(p@),
{
    let mut out: Vec<u8> = Vec::new();
    let n = p.len();
    let mut i: usize = 0;
    proof {
        assert(p@.subrange(0, 0) =~= Seq::<u8>::empty());
    }
    while i < n
        invariant
            n == p@.len(),
            i <= n,
            out@ =~= spec_escape(p@.subrange(0, i as int)),
        decreases n - i,
    {
        let c = p[i];
        if c == 27 {
            out.push(27);
            out.push(27);
        } else if c == 10 {
            out.push(27);
            out.push(110);
        } else {
            out.push(c);
        }
        proof {
            let pre = p@.subrange(0, i as int);
            let cur = p@.subrange(0, i as int + 1);
            let single = seq![p@[i as int]];
            assert(cur =~= pre + single);
            lemma_escape_concat(pre, single);
            assert(single.subrange(1, 1) =~= Seq::<u8>::empty());
            assert(spec_escape(Seq::<u8>::empty()) =~= Seq::<u8>::empty());
        }
        i = i + 1;
    }
    proof {
        assert(p@.subrange(0, n as int) =~= p@);
    }
    out
}

/// Undoes the escapes of one received line (without its delimiter).
pub fn unescape_payload(b: &Vec<u8>) -> (r: Option<Vec<u8>>)
    ensures
        match r {
            Some(p) => spec_unescape(b@) == Some(p@),
            None => spec_unescape(b@) is None,
        },
{
    let mut acc: Vec<u8> = Vec::new();
    let n = b.len();
    let mut cur: usize = 0;
    proof {
        match spec_unescape(b@) {
            Some(rest) => {
                assert(Seq::<u8>::empty() + rest =~= rest);
            },
            None => {},
        }
        assert(b@.subrange(0, n as int) =~= b@);
    }
    while cur < n
        invariant
            n == b@.len(),
            cur <= n,
            (match spec_unescape(b@.subrange(cur as int, n as int)) {
                Some(rest) => spec_unescape(b@) == Some(acc@ + rest),
                None => spec_unescape(b@) is None,
            }),
        decreases n - cur,
    {
        let ghost suffix = b@.subrange(cur as int, n as int);
        let c = b[cur];
        if c == 27 {
            if n - cur < 2 {
                return None;
            }
            let d = b[cur + 1];
            let x: u8 = if d == 27 {
                27
            } else if d == 110 {
                10
            } else {
                return None;
            };
            let ghost acc0 = acc@;
            acc.push(x);
            proof {
                assert(suffix.subrange(2, suffix.len() as int) =~= b@.subrange(
                    cur as int + 2,
                    n as int,
                ));
                match spec_unescape(b@.subrange(cur as int + 2, n as int)) {
                    Some(rest2) => {
                        assert(acc0 + (seq![x] + rest2) =~= acc@ + rest2);
                    },
                    None => {},
                }
            }
            cur = cur + 2;
        } else if c == 10 {
            return None;
        } else {
            let ghost acc0 = acc@;
            acc.push(c);
            proof {
                assert(suffix.subrange(1, suffix.len() as int) =~= b@.subrange(
                    cur as int + 1,
                    n as int,
                ));
                match spec_unescape(b@.subrange(cur as int + 1, n as int)) {
                    Some(rest2) => {
                        assert(acc0 + (seq![c] + rest2) =~= acc@ + rest2);
                    },
                    None => {},
                }
            }
            cur = cur + 1;
        }
    }
    proof {
        assert(b@.subrange(n as int, n as int) =~= Seq::<u8>::empty());
        assert(acc@ + Seq::<u8>::empty() =~= acc@);
    }
    Some(acc)
}

/// One full frame of a server message: the escaped payload, then the
/// delimiter, which the escaped payload never contains.
pub fn encode_server_frame(m: &ServerMessage) -> (r: Vec<u8>)
    ensures
        r@ =~= spec_escape(spec_encode_server(m@)) + seq![10u8],
        forall|i: int| 0 <= i < r@.len() - 1 ==> r@[i] != 10u8,
{
    let payload = encode_server_message(m);
    let mut out = escape_payload(&payload);
    proof {
        lemma_escape_no_delimiter(payload@);
    }
    out.push(10);
    out
}

/// One full frame of a client message.
pub fn encode_client_frame(m: &ClientMessage) -> (r: Vec<u8>)
    ensures
        r@ =~= spec_escape(spec_encode_client(m@)) + seq![10u8],
        forall|i: int| 0 <= i < r@.len() - 1 ==> r@[i] != 10u8,
{
    let payload = encode_client_message(m);
    let mut out = escape_payload(&payload);
    proof {
        lemma_escape_no_delimiter(payload@);
    }
    out.push(10);
    out
}

/// The server message one received line (without its delimiter) stands
/// for.
pub open spec fn spec_decode_server_line(line: Seq<u8>) -> Option<ServerMsgV> {
    match spec_unescape(line) {
        Some(p) => spec_decode_server(p),
        None => None,
    }
}

/// The client message one received line (without its delimiter) stands
/// for.
pub open spec fn spec_decode_client_line(line: Seq<u8>) -> Option<ClientMsgV> {
    match spec_unescape(line) {
        Some(p) => spec_decode_client(p),
        None => None,
    }
}

/// Decodes one received line (without its delimiter) as a server message.
pub fn decode_server_line(line: &Vec<u8>) -> (r: Option<ServerMessage>)
    ensures
        match r {
            Some(m) => spec_decode_server_line(line@) == Some(m@),
            None => spec_decode_server_line(line@) is None,
        },
{
    match unescape_payload(line) {
        Some(p) => decode_server_message(&p),
        None => None,
    }
}

/// Decodes one received line (without its delimiter) as a client message.
pub fn decode_client_line(line: &Vec<u8>) -> (r: Option<ClientMessage>)
    ensures
        match r {
            Some(m) => spec_decode_client_line(line@) == Some(m@),
            None => spec_decode_client_line(line@) is None,
        },
{
    match unescape_payload(line) {
        Some(p) => decode_client_message(&p),
        None => None,
    }
}

/// Round trip through the whole wire layer: a framed server message,
/// received as the line before its delimiter, decodes to the same message,
/// for every variant.
pub proof fn lemma_server_frame_round_trip(m: ServerMsgV)
    requires
        server_msg_wf(m),
    ensures
        spec_decode_server_line(spec_escape(spec_encode_server(m))) == Some(m),
{
    lemma_unescape_escape(spec_encode_server(m));
    lemma_server_round_trip(m);
}

/// Round trip through the whole wire layer for client messages.
pub proof fn lemma_client_frame_round_trip(m: ClientMsgV)
    requires
        client_msg_wf(m),
    ensures
        spec_decode_client_line(spec_escape(spec_encode_client(m))) == Some(m),
{
    lemma_unescape_escape(spec_encode_client(m));
    lemma_client_round_trip(m);
}

} // verus!
