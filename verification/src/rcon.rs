//! The Minecraft RCON protocol: packet framing, the client's decisions, and
//! the reading of the `list` command's reply.
//!
//! A packet is a little-endian `i32` size, then the request id, the packet
//! type, the body bytes and two zero bytes; the size counts everything after
//! itself.  The socket itself is driven by the application, which hands the
//! bytes it reads to the functions here.

use vstd::prelude::*;
use vstd::utf8::{
    decode_utf8, encode_utf8, encode_utf8_decode_utf8, encode_utf8_valid_utf8, valid_utf8,
};

use crate::error::{outcome, rcon_error, AppError, AppErrorView};
use crate::text::{
    chars_eq, chars_of, find_from, find_from_exec, is_blank, is_ws, lemma_find_first,
    lemma_find_from, lemma_split_absent, lemma_split_first, lemma_split_pieces_lack, lemma_trim,
    lower, lower_range, occurs_at, push_signed_decimal, push_str, ranges_view, signed_decimal,
    split_on, split_ranges, string_from_range, sub_vec, trim, trim_end, trim_range, trim_start,
};

verus! {

/// Packet type of a login request.
pub const SERVERDATA_AUTH: i32 = 3;

/// Packet type of the reply to a login request.
pub const SERVERDATA_AUTH_RESPONSE: i32 = 2;

/// Packet type of a command request.
pub const SERVERDATA_EXECCOMMAND: i32 = 2;

/// Packet type of the reply to a command.
pub const SERVERDATA_RESPONSE_VALUE: i32 = 0;

/// The smallest size a packet can declare: id, type and the two zero bytes.
pub const MIN_PACKET_SIZE: i32 = 10;

/// The four little-endian bytes of `x` in two's complement (`i32::to_le_bytes`).
pub open spec fn le_bytes(x: i32) -> Seq<u8> {
    let u = x as u32;
    seq![(u % 256) as u8, ((u / 256) % 256) as u8, ((u / 65536) % 256) as u8, (u / 16777216) as u8]
}

/// The `i32` whose little-endian bytes are `b[0..4]` (`i32::from_le_bytes`).
pub open spec fn le_value(b: Seq<u8>) -> i32 {
    (b[0] + 256 * b[1] + 65536 * b[2] + 16777216 * b[3]) as i32
}

/// The bytes of a packet with the given id, type and body bytes.  The size
/// field holds the body length plus ten, cast to `i32` (so it wraps for a body
/// too long for the field, as the cast does).
pub open spec fn packet_bytes(id: i32, packet_type: i32, body: Seq<u8>) -> Seq<u8> {
    le_bytes((body.len() + 10) as i32) + le_bytes(id) + le_bytes(packet_type) + body + seq![0u8, 0u8]
}

/// The text of `String::from_utf8_lossy` on `bytes`: their UTF-8 decoding,
/// with each invalid sequence replaced by U+FFFD.
pub uninterp spec fn utf8_lossy(bytes: Seq<u8>) -> Seq<char>;

/// Decodes bytes as UTF-8, replacing invalid sequences (std's `String::from_utf8_lossy`).
///
/// Claims that the result is `utf8_lossy` of the bytes, and, as the std
/// documentation states, that valid UTF-8 comes back decoded unchanged.
#[verifier::external_body]
fn decode_lossy(bytes: &[u8]) -> (s: String)
    ensures
        s@ == utf8_lossy(bytes@),
        valid_utf8(bytes@) ==> s@ == decode_utf8(bytes@),
{
    String::from_utf8_lossy(bytes).into_owned()
}

/// Appends the little-endian bytes of `x`.
fn push_le(out: &mut Vec<u8>, x: i32)
    ensures
        final(out)@ == old(out)@ + le_bytes(x),
{
    let u = x as u32;
    out.push((u % 256) as u8);
    out.push(((u / 256) % 256) as u8);
    out.push(((u / 65536) % 256) as u8);
    out.push((u / 16777216) as u8);
    assert(out@ =~= old(out)@ + le_bytes(x));
}

/// Reads the little-endian `i32` at `b[at..at + 4]`.
fn read_le(b: &[u8], at: usize) -> (x: i32)
    requires
        at + 4 <= b@.len(),
    ensures
        x == le_value(b@.subrange(at as int, at + 4)),
{
    let u: u32 = b[at] as u32 + 256 * (b[at + 1] as u32) + 65536 * (b[at + 2] as u32) + 16777216 * (
    b[at + 3] as u32);
    #[verifier::truncate]
    (u as i32)
}

/// Lemma: reading back the bytes of `x` gives `x`.
pub proof fn lemma_le_roundtrip(x: i32)
    ensures
        le_value(le_bytes(x)) == x,
{
    let u = x as u32;
    assert(u == (u % 256) + 256 * ((u / 256) % 256) + 65536 * ((u / 65536) % 256) + 16777216 * (u
        / 16777216)) by (bit_vector);
    assert(((x as u32) as i32) == x) by (bit_vector);
}

/// The bytes of the packet carrying `body` with the given id and type
/// (the framing that `write_packet` sends).
pub fn encode_packet(id: i32, packet_type: i32, body: &str) -> (out: Vec<u8>)
    ensures
        out@ == packet_bytes(id, packet_type, encode_utf8(body@)),
{
    let bytes = body.as_bytes();
    let n = bytes.len();
    let size: i32 = #[verifier::truncate] ((n as u128 + 10) as i32);
    let mut out: Vec<u8> = Vec::new();
    push_le(&mut out, size);
    push_le(&mut out, id);
    push_le(&mut out, packet_type);
    let mut i: usize = 0;
    let ghost head = out@;
    while i < n
        invariant
            n == bytes@.len(),
            i <= n,
            out@ == head + bytes@.subrange(0, i as int),
        decreases n - i,
    {
        out.push(bytes[i]);
        i = i + 1;
        assert(out@ =~= head + bytes@.subrange(0, i as int));
    }
    out.push(0u8);
    out.push(0u8);
    assert(bytes@.subrange(0, n as int) == bytes@);
    assert(out@ =~= packet_bytes(id, packet_type, encode_utf8(body@)));
    out
}

/// What a packet's size field admits: the payload length to read next, or
/// the error for a size below the minimum.
pub open spec fn size_verdict(size: i32) -> Result<usize, AppErrorView> {
    if size < 10 {
        Err(AppErrorView::Rcon("invalid packet size: "@ + signed_decimal(size as int)))
    } else {
        Ok(size as usize)
    }
}

/// Reads a packet's size field (its first four bytes) and checks it.
pub fn decode_packet_size(header: &[u8]) -> (r: Result<usize, AppError>)
    requires
        header@.len() == 4,
    ensures
        outcome(r) == size_verdict(le_value(header@)),
{
    let size = read_le(header, 0);
    assert(header@.subrange(0, 4) =~= header@);
    if size < MIN_PACKET_SIZE {
        let mut m = String::new();
        push_str(&mut m, "invalid packet size: ");
        push_signed_decimal(&mut m, size as i64);
        assert(m@ =~= "invalid packet size: "@ + signed_decimal(size as int));
        Err(AppError::Rcon(m))
    } else {
        Ok(size as usize)
    }
}

/// The id, type and body text carried by a packet's payload (the bytes after
/// the size field).
pub open spec fn payload_fields(payload: Seq<u8>) -> (i32, i32, Seq<char>) {
    (
        le_value(payload.subrange(0, 4)),
        le_value(payload.subrange(4, 8)),
        body_text(payload.subrange(8, payload.len() - 2)),
    )
}

/// The text read from body bytes: their UTF-8 decoding when they are valid,
/// the lossy decoding otherwise.
pub open spec fn body_text(bytes: Seq<u8>) -> Seq<char> {
    if valid_utf8(bytes) {
        decode_utf8(bytes)
    } else {
        utf8_lossy(bytes)
    }
}

/// Reads the id, type and body out of a packet's payload.
pub fn decode_packet_payload(payload: &[u8]) -> (r: (i32, i32, String))
    requires
        payload@.len() >= 10,
    ensures
        (r.0, r.1, r.2@) == payload_fields(payload@),
{
    let id = read_le(payload, 0);
    let packet_type = read_le(payload, 4);
    let n = payload.len();
    let mut body_bytes: Vec<u8> = Vec::new();
    let mut i: usize = 8;
    while i < n - 2
        invariant
            n == payload@.len(),
            n >= 10,
            8 <= i <= n - 2,
            body_bytes@ == payload@.subrange(8, i as int),
        decreases n - 2 - i,
    {
        body_bytes.push(payload[i]);
        i = i + 1;
        assert(body_bytes@ =~= payload@.subrange(8, i as int));
    }
    let body = decode_lossy(body_bytes.as_slice());
    (id, packet_type, body)
}

/// Framing law: a written packet reads back as what was written.
///
/// The size field of the bytes of a packet admits exactly the rest of the
/// packet, and that rest reads back as the same id, type and text, for every
/// body whose packet length fits the size field.
pub proof fn lemma_packet_roundtrip(id: i32, packet_type: i32, body: Seq<char>)
    requires
        encode_utf8(body).len() + 10 <= i32::MAX,
    ensures
        ({
            let bytes = packet_bytes(id, packet_type, encode_utf8(body));
            let size = le_value(bytes.subrange(0, 4));
            &&& size_verdict(size) == Ok::<usize, AppErrorView>((bytes.len() - 4) as usize)
            &&& payload_fields(bytes.subrange(4, bytes.len() as int)) == (id, packet_type, body)
        }),
{
    let enc = encode_utf8(body);
    let bytes = packet_bytes(id, packet_type, enc);
    let size = (enc.len() + 10) as i32;
    lemma_le_roundtrip(size);
    lemma_le_roundtrip(id);
    lemma_le_roundtrip(packet_type);
    assert(bytes.subrange(0, 4) =~= le_bytes(size));
    let payload = bytes.subrange(4, bytes.len() as int);
    assert(payload.subrange(0, 4) =~= le_bytes(id));
    assert(payload.subrange(4, 8) =~= le_bytes(packet_type));
    assert(payload.subrange(8, payload.len() - 2) =~= enc);
    encode_utf8_decode_utf8(body);
    encode_utf8_valid_utf8(body);
}

/// The request id that follows `id`: one more, wrapping at `i32::MAX`.
pub open spec fn following_id(id: i32) -> i32 {
    if id == i32::MAX {
        i32::MIN
    } else {
        (id + 1) as i32
    }
}

/// The request id after `k` more ids were handed out from `id`.
pub open spec fn ids_after(id: i32, k: nat) -> i32
    decreases k,
{
    if k == 0 {
        id
    } else {
        following_id(ids_after(id, (k - 1) as nat))
    }
}

/// The `i32` that the integer `x` wraps to: `x` modulo 2^32, read in two's
/// complement.
pub open spec fn wrapped_i32(x: int) -> int {
    let m = x % 0x1_0000_0000;
    if m >= 0x8000_0000 {
        m - 0x1_0000_0000
    } else {
        m
    }
}

/// Law: handing out `k` ids from `id` ends at `id + k`, wrapped to an `i32`.
pub proof fn lemma_ids_after(id: i32, k: nat)
    ensures
        ids_after(id, k) as int == wrapped_i32(id + k),
    decreases k,
{
    let big: int = 0x1_0000_0000;
    if k == 0 {
        assert((id as int) % big == if id >= 0 { id as int } else { id + big }) by {
            if id < 0 {
                vstd::arithmetic::div_mod::lemma_mod_add_multiples_vanish(id as int, big);
                vstd::arithmetic::div_mod::lemma_small_mod((id + big) as nat, big as nat);
            } else {
                vstd::arithmetic::div_mod::lemma_small_mod(id as nat, big as nat);
            }
        }
    } else {
        lemma_ids_after(id, (k - 1) as nat);
        let a: int = id + k - 1;
        vstd::arithmetic::div_mod::lemma_mod_bound(a, big);
        vstd::arithmetic::div_mod::lemma_mod_bound(a + 1, big);
        vstd::arithmetic::div_mod::lemma_mod_adds(a, 1, big);
        vstd::arithmetic::div_mod::lemma_small_mod(1nat, big as nat);
        assert(a + 1 == id + k);
    }
}

/// Law: in a session opened by `new`, the login request carries the id 1,
/// and the command sent after `k` earlier non-blank commands carries the id
/// `k + 2`, wrapped to an `i32` (each of those requests hands out one id).
pub proof fn lemma_command_ids(k: nat)
    ensures
        ids_after(0, 1) == 1,
        ids_after(0, k + 2) as int == wrapped_i32(k + 2int),
{
    lemma_ids_after(0, 1);
    lemma_ids_after(0, k + 2);
    vstd::arithmetic::div_mod::lemma_small_mod(1nat, 0x1_0000_0000nat);
}

/// The client side of an RCON conversation: the ids it hands out and the
/// checks it makes of the server's replies.
pub struct RconSession {
    pub request_id: i32,
}

/// What a login reply is answered: accepted when it carries the id of the
/// request and the login-reply type.
pub open spec fn auth_verdict(sent_id: i32, response_id: i32, response_type: i32) -> Result<(), AppErrorView> {
    if response_id != sent_id || response_type != SERVERDATA_AUTH_RESPONSE {
        Err(AppErrorView::Rcon("authentication failed"@))
    } else {
        Ok(())
    }
}

/// What a command reply is answered: its body when it has the reply type.
pub open spec fn command_verdict(response_type: i32, body: Seq<char>) -> Result<Seq<char>, AppErrorView> {
    if response_type != SERVERDATA_RESPONSE_VALUE {
        Err(AppErrorView::Rcon("unexpected response type: "@ + signed_decimal(response_type as int)))
    } else {
        Ok(body)
    }
}

impl RconSession {
    /// A session that has sent nothing yet.
    pub fn new() -> (s: RconSession)
        ensures
            s.request_id == 0,
    {
        RconSession { request_id: 0 }
    }

    /// Hands out the next request id.
    pub fn next_id(&mut self) -> (id: i32)
        ensures
            final(self).request_id == following_id(old(self).request_id),
            id == final(self).request_id,
    {
        self.request_id = self.request_id.wrapping_add(1);
        self.request_id
    }

    /// The login packet for `password`, with the id it carries.
    pub fn auth_request(&mut self, password: &str) -> (r: (i32, Vec<u8>))
        ensures
            final(self).request_id == following_id(old(self).request_id),
            r.0 == final(self).request_id,
            r.1@ == packet_bytes(r.0, SERVERDATA_AUTH, encode_utf8(password@)),
    {
        let id = self.next_id();
        (id, encode_packet(id, SERVERDATA_AUTH, password))
    }

    /// Checks the server's reply to the login request that carried `sent_id`.
    pub fn check_auth_response(&self, sent_id: i32, response_id: i32, response_type: i32) -> (r: Result<(), AppError>)
        ensures
            outcome(r) == auth_verdict(sent_id, response_id, response_type),
    {
        if response_id != sent_id || response_type != SERVERDATA_AUTH_RESPONSE {
            return Err(rcon_error("authentication failed"));
        }
        Ok(())
    }

    /// The packet running `cmd`, with the id it carries; a blank command is
    /// refused and uses no id.
    pub fn command_request(&mut self, cmd: &str) -> (r: Result<(i32, Vec<u8>), AppError>)
        ensures
            trim(cmd@).len() == 0 ==> final(self).request_id == old(self).request_id && (r matches Err(
                e) && e@ == AppErrorView::Rcon("command must not be empty"@)),
            trim(cmd@).len() != 0 ==> final(self).request_id == following_id(old(self).request_id) && (
            r matches Ok((id, bytes)) && id == final(self).request_id && bytes@ == packet_bytes(
                id,
                SERVERDATA_EXECCOMMAND,
                encode_utf8(cmd@),
            )),
    {
        if is_blank(cmd) {
            return Err(rcon_error("command must not be empty"));
        }
        let id = self.next_id();
        Ok((id, encode_packet(id, SERVERDATA_EXECCOMMAND, cmd)))
    }

    /// Checks the server's reply to a command and hands back its text.
    pub fn check_command_response(&self, response_type: i32, body: String) -> (r: Result<String, AppError>)
        ensures
            match command_verdict(response_type, body@) {
                Ok(text) => r matches Ok(s) && s@ == text,
                Err(e) => r matches Err(x) && x@ == e,
            },
    {
        if response_type != SERVERDATA_RESPONSE_VALUE {
            let mut m = String::new();
            push_str(&mut m, "unexpected response type: ");
            push_signed_decimal(&mut m, response_type as i64);
            assert(m@ =~= "unexpected response type: "@ + signed_decimal(response_type as int));
            return Err(AppError::Rcon(m));
        }
        Ok(body)
    }
}

/// What a login password is answered: refused when empty.
pub fn check_password(password: &str) -> (r: Result<(), AppError>)
    ensures
        password@.len() == 0 ==> (r matches Err(e) && e@ == AppErrorView::Rcon(
            "password must not be empty"@,
        )),
        password@.len() != 0 ==> r is Ok,
{
    if password.is_empty() {
        return Err(rcon_error("password must not be empty"));
    }
    Ok(())
}

/// The reply of a server with no player slots and nobody online.
pub open spec fn empty_server_reply() -> Seq<char> {
    "There are 0 of a max of 0 players online:"@
}

/// The non-blank, trimmed entries of `pieces`, in order.
pub open spec fn kept_names(pieces: Seq<Seq<char>>) -> Seq<Seq<char>>
    decreases pieces.len(),
{
    if pieces.len() == 0 {
        seq![]
    } else {
        let rest = kept_names(pieces.drop_last());
        let t = trim(pieces.last());
        if t.len() > 0 {
            rest.push(t)
        } else {
            rest
        }
    }
}

/// The player names in a reply to the `list` command: the comma-separated,
/// trimmed, non-empty entries after the first `": "`; none when there is no
/// `": "`, when nothing follows it, or when what follows is the empty-server
/// reply in any ASCII case.
pub open spec fn player_list(response: Seq<char>) -> Seq<Seq<char>> {
    match find_from(response, ": "@, 0) {
        None => seq![],
        Some(idx) => {
            let players = trim(response.subrange(idx + ": "@.len(), response.len() as int));
            if players.len() == 0 || lower(players) == lower(empty_server_reply()) {
                seq![]
            } else {
                kept_names(split_on(players, seq![',']))
            }
        },
    }
}

/// Reads the player names out of a reply to the `list` command.
pub fn parse_player_list(response: &str) -> (names: Vec<String>)
    ensures
        names@.map_values(|n: String| n@) == player_list(response@),
{
    let cs = chars_of(response);
    let marker = chars_of(": ");
    let found = find_from_exec(&cs, &marker, 0);
    proof {
        lemma_find_from(cs@, marker@, 0);
    }
    let idx = match found {
        None => {
            let v: Vec<String> = Vec::new();
            assert(v@.map_values(|n: String| n@) =~= player_list(response@));
            return v;
        },
        Some(i) => i,
    };
    assert(occurs_at(cs@, marker@, idx as int));
    assert(idx + marker.len() <= cs.len());
    let (a, b) = trim_range(&cs, idx + marker.len(), cs.len());
    let players = sub_vec(&cs, a, b);
    assert(players@ == trim(response@.subrange(idx + ": "@.len(), response@.len() as int)));
    let lowered = lower_range(&players, 0, players.len());
    let empty_reply = chars_of("There are 0 of a max of 0 players online:");
    let empty_lowered = lower_range(&empty_reply, 0, empty_reply.len());
    assert(players@.subrange(0, players@.len() as int) == players@);
    assert(empty_reply@.subrange(0, empty_reply@.len() as int) == empty_reply@);
    if players.len() == 0 || chars_eq(&lowered, &empty_lowered) {
        let v: Vec<String> = Vec::new();
        assert(v@.map_values(|n: String| n@) =~= player_list(response@));
        return v;
    }
    let comma = vec![','];
    assert(comma@ =~= seq![',']);
    let ranges = split_ranges(&players, &comma);
    let ghost pieces = ranges_view(players@, ranges@);
    let mut names: Vec<String> = Vec::new();
    let mut k: usize = 0;
    while k < ranges.len()
        invariant
            k <= ranges@.len(),
            pieces == ranges_view(players@, ranges@),
            forall|j: int| 0 <= j < ranges@.len() ==> #[trigger] ranges@[j].0 <= ranges@[j].1 <= players@.len(),
            names@.map_values(|n: String| n@) == kept_names(pieces.take(k as int)),
        decreases ranges@.len() - k,
    {
        let (lo, hi) = ranges[k];
        assert(ranges@[k as int].0 <= ranges@[k as int].1 <= players@.len());
        let (x, y) = trim_range(&players, lo, hi);
        assert(pieces.take(k + 1).drop_last() =~= pieces.take(k as int));
        assert(pieces.take(k + 1).last() == players@.subrange(lo as int, hi as int));
        if x < y {
            let name = string_from_range(&players, x, y);
            names.push(name);
        }
        assert(names@.map_values(|n: String| n@) =~= kept_names(pieces.take(k + 1)));
        k = k + 1;
    }
    assert(pieces.take(ranges@.len() as int) =~= pieces);
    names
}

/// A player name as the reply parser hands it out: not empty, without
/// surrounding whitespace, and without the separator `,`.
pub open spec fn clean_name(n: Seq<char>) -> bool {
    &&& n.len() > 0
    &&& !is_ws(n[0])
    &&& !is_ws(n.last())
    &&& !n.contains(',')
}

proof fn lemma_kept_names_clean(pieces: Seq<Seq<char>>)
    requires
        forall|k: int| 0 <= k < pieces.len() ==> !(#[trigger] pieces[k]).contains(','),
    ensures
        forall|k: int| 0 <= k < kept_names(pieces).len() ==> clean_name(#[trigger] kept_names(pieces)[k]),
    decreases pieces.len(),
{
    if pieces.len() > 0 {
        let init = pieces.drop_last();
        assert forall|k: int| 0 <= k < init.len() implies !(#[trigger] init[k]).contains(',') by {
            assert(init[k] == pieces[k]);
        }
        lemma_kept_names_clean(init);
        let last = pieces.last();
        assert(!last.contains(','));
        lemma_trim(last);
        let t = trim(last);
        let (a, b) = choose|a: int, b: int| 0 <= a <= b <= last.len() && t == last.subrange(a, b);
        assert forall|m: int| 0 <= m < t.len() implies t[m] != ',' by {
            assert(t[m] == last[a + m]);
        }
        let kn = kept_names(pieces);
        let ki = kept_names(init);
        assert forall|k: int| 0 <= k < kn.len() implies clean_name(#[trigger] kn[k]) by {
            if k < ki.len() {
                assert(kn[k] == ki[k]);
            } else {
                assert(kn[k] == t);
            }
        }
    }
}

/// Law: every name read from a `list` reply is a clean name: non-empty,
/// trimmed, and free of the `,` separator.
pub proof fn lemma_player_names_clean(response: Seq<char>)
    ensures
        forall|k: int|
            0 <= k < player_list(response).len() ==> clean_name(#[trigger] player_list(response)[k]),
{
    match find_from(response, ": "@, 0) {
        None => {},
        Some(idx) => {
            let players = trim(response.subrange(idx + ": "@.len(), response.len() as int));
            lemma_split_pieces_lack(players, ',', 0);
            lemma_kept_names_clean(split_on(players, seq![',']));
        },
    }
}

/// Player names as the server lists them: separated by `", "`.
pub open spec fn join_names(ns: Seq<Seq<char>>) -> Seq<char>
    decreases ns.len(),
{
    if ns.len() == 0 {
        seq![]
    } else if ns.len() == 1 {
        ns[0]
    } else {
        ns[0] + seq![',', ' '] + join_names(ns.drop_first())
    }
}

/// The pieces of `p + join_names(ns)` between commas: the first name after
/// `p`, then each other name after the space that follows its comma.
proof fn lemma_split_joined(p: Seq<char>, ns: Seq<Seq<char>>)
    requires
        !p.contains(','),
        ns.len() > 0,
        forall|i: int| 0 <= i < ns.len() ==> !(#[trigger] ns[i]).contains(','),
    ensures
        split_on(p + join_names(ns), seq![',']) == seq![p + ns[0]] + ns.drop_first().map_values(
            |n: Seq<char>| seq![' '] + n,
        ),
    decreases ns.len(),
{
    let first = p + ns[0];
    assert(!first.contains(',')) by {
        assert forall|m: int| 0 <= m < first.len() implies first[m] != ',' by {
            if m < p.len() {
                assert(first[m] == p[m]);
            } else {
                assert(first[m] == ns[0][m - p.len()]);
            }
        }
    }
    if ns.len() == 1 {
        lemma_split_absent(first, ',');
        assert(ns.drop_first().map_values(|n: Seq<char>| seq![' '] + n) =~= Seq::<Seq<char>>::empty());
    } else {
        let rest = ns.drop_first();
        let tail = seq![' '] + join_names(rest);
        assert(p + join_names(ns) =~= first + seq![','] + tail);
        lemma_split_first(first, ',', tail);
        assert forall|i: int| 0 <= i < rest.len() implies !(#[trigger] rest[i]).contains(',') by {
            assert(rest[i] == ns[i + 1]);
        }
        assert(!seq![' '].contains(',')) by {
            assert(seq![' '][0] == ' ');
        }
        lemma_split_joined(seq![' '], rest);
        assert(seq![seq![' '] + rest[0]] + rest.drop_first().map_values(|n: Seq<char>| seq![' '] + n)
            =~= rest.map_values(|n: Seq<char>| seq![' '] + n));
    }
}

/// A clean name trims to itself, with or without one space before it.
proof fn lemma_trim_clean(n: Seq<char>)
    requires
        clean_name(n),
    ensures
        trim(n) == n,
        trim(seq![' '] + n) == n,
{
    assert(trim_start(n) == n);
    assert(trim_end(n) == n);
    assert((seq![' '] + n).drop_first() =~= n);
    assert(is_ws(' '));
    assert(trim_start(seq![' '] + n) == trim_start(n));
}

/// The pieces whose trimmed forms are the non-empty names `ns` keep exactly `ns`.
proof fn lemma_kept_exactly(ps: Seq<Seq<char>>, ns: Seq<Seq<char>>)
    requires
        ps.len() == ns.len(),
        forall|i: int| 0 <= i < ps.len() ==> trim(#[trigger] ps[i]) == ns[i] && ns[i].len() > 0,
    ensures
        kept_names(ps) == ns,
    decreases ps.len(),
{
    if ps.len() > 0 {
        let pi = ps.drop_last();
        let ni = ns.drop_last();
        assert forall|i: int| 0 <= i < pi.len() implies trim(#[trigger] pi[i]) == ni[i] && ni[i].len() > 0 by {
            assert(pi[i] == ps[i]);
        }
        lemma_kept_exactly(pi, ni);
        assert(trim(ps.last()) == ns.last());
        assert(ni.push(ns.last()) =~= ns);
    }
}

/// The joined names start with the first name's first character and end
/// with the last name's last character.
proof fn lemma_join_ends(ns: Seq<Seq<char>>)
    requires
        ns.len() > 0,
        forall|i: int| 0 <= i < ns.len() ==> (#[trigger] ns[i]).len() > 0,
    ensures
        join_names(ns).len() > 0,
        join_names(ns)[0] == ns[0][0],
        join_names(ns).last() == ns.last().last(),
    decreases ns.len(),
{
    if ns.len() > 1 {
        let rest = ns.drop_first();
        assert forall|i: int| 0 <= i < rest.len() implies (#[trigger] rest[i]).len() > 0 by {
            assert(rest[i] == ns[i + 1]);
        }
        lemma_join_ends(rest);
        assert(rest.last() == ns.last());
    }
}

/// Law: a reply to `list` that names its players after the colon, separated
/// by `", "`, reads back as exactly those names, for every list of clean
/// names that does not spell the empty-server reply and every leading text
/// without a colon.
pub proof fn lemma_list_reply_roundtrip(prefix: Seq<char>, names: Seq<Seq<char>>)
    requires
        !prefix.contains(':'),
        names.len() > 0,
        forall|i: int| 0 <= i < names.len() ==> clean_name(#[trigger] names[i]),
        lower(join_names(names)) != lower(empty_server_reply()),
    ensures
        player_list(prefix + ": "@ + join_names(names)) == names,
{
    reveal_strlit(": ");
    let marker = ": "@;
    assert(marker =~= seq![':', ' ']);
    let joined = join_names(names);
    let reply = prefix + marker + joined;
    let n = prefix.len() as int;
    assert forall|m: int| 0 <= m < n implies !occurs_at(reply, marker, m) by {
        assert(reply.subrange(m, m + 2)[0] == prefix[m]);
    }
    assert(reply.subrange(n, n + 2) =~= marker);
    lemma_find_first(reply, marker, 0, n);
    assert(reply.subrange(n + marker.len(), reply.len() as int) =~= joined);
    assert forall|i: int| 0 <= i < names.len() implies (#[trigger] names[i]).len() > 0 by {
        assert(clean_name(names[i]));
    }
    lemma_join_ends(names);
    assert(clean_name(names[0]));
    assert(clean_name(names.last()));
    assert(trim_start(joined) == joined);
    assert(trim_end(joined) == joined);
    assert forall|i: int| 0 <= i < names.len() implies !(#[trigger] names[i]).contains(',') by {
        assert(clean_name(names[i]));
    }
    assert(!Seq::<char>::empty().contains(','));
    lemma_split_joined(Seq::<char>::empty(), names);
    assert(Seq::<char>::empty() + joined =~= joined);
    assert(Seq::<char>::empty() + names[0] =~= names[0]);
    let pieces = split_on(joined, seq![',']);
    assert forall|i: int| 0 <= i < pieces.len() implies trim(#[trigger] pieces[i]) == names[i] && names[i].len() > 0 by {
        assert(clean_name(names[i]));
        lemma_trim_clean(names[i]);
        if i > 0 {
            assert(pieces[i] == seq![' '] + names[i]);
        }
    }
    lemma_kept_exactly(pieces, names);
}

} // verus!
