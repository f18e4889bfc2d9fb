//! Identity and message composition for the fabric: peer and device ids,
//! host lookups with their documented fallbacks, broadcast targets, framing,
//! and one composer per outgoing message kind.

use vstd::prelude::*;

use crate::fabric::types::{WireKind, WireMessage};
use crate::numstr::{dec_rep, u64_to_dec};
use crate::platform::{hex_encode, hostname_string, is_hex_char, lemma_hex_of_chars,
    local_ip_info, mac_address_string, new_uuid, now_unix_ms, sha256};

verus! {

/// The first sixteen characters of a hexadecimal rendering: sixteen
/// lowercase hex digits.
fn hex_prefix_16(digest: &Vec<u8>) -> (r: String)
    requires
        digest@.len() == 32,
    ensures
        r@.len() == 16,
        forall|i: int| 0 <= i < 16 ==> is_hex_char(#[trigger] r@[i]),
{
    let hex = hex_encode(digest.as_slice());
    proof {
        assert(hex@.len() == 64);
        lemma_hex_of_chars(digest@);
    }
    let r = hex.as_str().substring_char(0, 16).to_owned();
    proof {
        assert(forall|i: int| 0 <= i < 16 ==> #[trigger] r@[i] == hex@[i]);
    }
    r
}

/// A peer id: the first sixteen hex digits of a SHA-256 over the host's MAC
/// address (or a random id when none is known) and the current time —
/// always sixteen lowercase hex characters.
pub fn generate_peer_id() -> (r: String)
    ensures
        r@.len() == 16,
        forall|i: int| 0 <= i < 16 ==> is_hex_char(#[trigger] r@[i]),
{
    let mut seed = match mac_address_string() {
        Some(m) => m,
        None => new_uuid(),
    };
    let ms = now_unix_ms();
    let ms_u: u64 = if ms > 0 {
        ms as u64
    } else {
        0
    };
    seed.append(u64_to_dec(ms_u).as_str());
    let digest = sha256(seed.as_str().as_bytes());
    hex_prefix_16(&digest)
}

/// A device id: the first sixteen hex digits of a SHA-256 over the host's
/// MAC address text (all zeros when none is known) — always sixteen
/// lowercase hex characters.
pub fn generate_device_id() -> (r: String)
    ensures
        r@.len() == 16,
        forall|i: int| 0 <= i < 16 ==> is_hex_char(#[trigger] r@[i]),
{
    let mac = get_mac_address();
    let digest = sha256(mac.as_str().as_bytes());
    hex_prefix_16(&digest)
}

/// The all-zeros MAC text that stands in when the host reports none.
pub fn fallback_mac(o: Option<String>) -> (r: String)
    ensures
        o is Some ==> r@ == o->0@,
        o is None ==> r@ == "00:00:00:00:00:00"@,
{
    match o {
        Some(m) => m,
        None => String::from_str("00:00:00:00:00:00"),
    }
}

/// The loopback text that stands in when the host has no local IP.
pub fn fallback_ip(o: Option<String>) -> (r: String)
    ensures
        o is Some ==> r@ == o->0@,
        o is None ==> r@ == "127.0.0.1"@,
{
    match o {
        Some(t) => t,
        None => String::from_str("127.0.0.1"),
    }
}

/// The name that stands in when the host's name cannot be read.
pub fn fallback_hostname(o: Option<String>) -> (r: String)
    ensures
        o is Some ==> r@ == o->0@,
        o is None ==> r@ == "unknown"@,
{
    match o {
        Some(h) => h,
        None => String::from_str("unknown"),
    }
}

/// The host's MAC address text, or all zeros when none is known.
pub fn get_mac_address() -> String {
    fallback_mac(mac_address_string())
}

/// The host's local IP as text, degrading to the loopback address when the
/// lookup fails.
pub fn get_local_ip() -> String {
    let text = match local_ip_info() {
        Some((t, _)) => Some(t),
        None => None,
    };
    fallback_ip(text)
}

/// The host's name, degrading to "unknown" when the lookup fails.
pub fn get_hostname() -> String {
    fallback_hostname(hostname_string())
}

/// The dotted text of one IPv4 octet-triple subnet broadcast address.
pub open spec fn subnet_broadcast_text(a: u8, b: u8, c: u8) -> Seq<char> {
    dec_rep(a as nat) + "."@ + dec_rep(b as nat) + "."@ + dec_rep(c as nat) + ".255"@
}

/// The discovery targets: the `/24` broadcast address of the local IPv4
/// network, or the limited broadcast address when the host has none.
pub fn broadcast_addresses() -> (r: Vec<String>)
    ensures
        r@.len() == 1,
        (exists|a: u8, b: u8, c: u8| r@[0]@ == #[trigger] subnet_broadcast_text(a, b, c)) || r@[0]@
            == "255.255.255.255"@,
{
    let mut out: Vec<String> = Vec::new();
    match local_ip_info() {
        Some((_, Some(octets))) => {
            let mut s = u64_to_dec(octets[0] as u64);
            s.append(".");
            s.append(u64_to_dec(octets[1] as u64).as_str());
            s.append(".");
            s.append(u64_to_dec(octets[2] as u64).as_str());
            s.append(".255");
            proof {
                assert(s@ =~= subnet_broadcast_text(octets[0], octets[1], octets[2]));
            }
            out.push(s);
        },
        _ => {
            out.push(String::from_str("255.255.255.255"));
        },
    }
    out
}

/// Frames one message text as a line of the TCP transport: the text itself
/// with a newline after it.
pub fn frame_line(text: &str) -> (r: String)
    ensures
        r@ == text@ + "\n"@,
{
    let mut r = text.to_owned();
    r.append("\n");
    r
}

/// How many 64 KiB chunks a file of the given size needs: the ceiling,
/// and at least one.
pub open spec fn chunks_for(file_size: u64) -> u64 {
    if file_size == 0 {
        1u64
    } else {
        (((file_size - 1) / 65536) + 1) as u64
    }
}

/// Computes the chunk count for a file size.
pub fn total_chunks_for(file_size: u64) -> (r: u64)
    ensures
        r == chunks_for(file_size),
        r >= 1,
        file_size > 0 ==> r as int * 65536 >= file_size,
{
    if file_size == 0 {
        1
    } else {
        let r = (file_size - 1) / 65536 + 1;
        proof {
            assert(r as int * 65536 >= file_size) by (nonlinear_arith)
                requires
                    r as int == (file_size - 1) as int / 65536 + 1,
                    file_size > 0,
            ;
        }
        r
    }
}

/// A chat message from this user to a receiver. A caller-supplied message
/// id is kept; an empty one is replaced by a fresh random id.
pub fn compose_chat(
    sender_id: &str,
    sender_name: &str,
    receiver_id: &str,
    content: &str,
    message_id: &str,
) -> (r: WireMessage)
    ensures
        r@.kind == WireKind::Chat,
        r@.sender_id == sender_id@,
        r@.sender_name == sender_name@,
        r@.receiver_id == receiver_id@,
        r@.content == content@,
        message_id@.len() > 0 ==> r@.id == message_id@,
        message_id@.len() == 0 ==> r@.id.len() == 36,
{
    let mut m = WireMessage::blank(WireKind::Chat);
    m.id = if message_id.unicode_len() > 0 {
        message_id.to_owned()
    } else {
        new_uuid()
    };
    m.sender_id = sender_id.to_owned();
    m.sender_name = sender_name.to_owned();
    m.receiver_id = receiver_id.to_owned();
    m.content = content.to_owned();
    m.timestamp = crate::platform::now_rfc3339();
    m
}

/// A receipt of the given kind (read or delivery) for one message.
pub fn compose_receipt(
    kind: WireKind,
    sender_id: &str,
    receiver_id: &str,
    message_id: &str,
) -> (r: WireMessage)
    ensures
        r@.kind == kind,
        r@.sender_id == sender_id@,
        r@.receiver_id == receiver_id@,
        r@.message_id == message_id@,
        r@.id.len() == 36,
{
    let mut m = WireMessage::blank(kind);
    m.id = new_uuid();
    m.sender_id = sender_id.to_owned();
    m.receiver_id = receiver_id.to_owned();
    m.message_id = message_id.to_owned();
    m.timestamp = crate::platform::now_rfc3339();
    m
}

/// A typing indicator.
pub fn compose_typing(sender_id: &str, receiver_id: &str, is_typing: bool) -> (r: WireMessage)
    ensures
        r@.kind == WireKind::Typing,
        r@.sender_id == sender_id@,
        r@.receiver_id == receiver_id@,
        r@.is_typing == is_typing,
        r@.content == if is_typing {
            "typing"@
        } else {
            "stopped"@
        },
        r@.id.len() == 36,
{
    let mut m = WireMessage::blank(WireKind::Typing);
    m.id = new_uuid();
    m.sender_id = sender_id.to_owned();
    m.receiver_id = receiver_id.to_owned();
    m.is_typing = is_typing;
    m.content = if is_typing {
        String::from_str("typing")
    } else {
        String::from_str("stopped")
    };
    m.timestamp = crate::platform::now_rfc3339();
    m
}

/// A ping or pong control message.
pub fn compose_control(kind: WireKind, sender_id: &str, receiver_id: &str) -> (r: WireMessage)
    ensures
        r@.kind == kind,
        r@.sender_id == sender_id@,
        r@.receiver_id == receiver_id@,
        r@.id.len() == 36,
{
    let mut m = WireMessage::blank(kind);
    m.id = new_uuid();
    m.sender_id = sender_id.to_owned();
    m.receiver_id = receiver_id.to_owned();
    m.timestamp = crate::platform::now_rfc3339();
    m
}

/// A discovery announcement as it travels over UDP broadcast: the peer's
/// identity, its user, its school scope, and where it runs.
pub struct DiscoveryAnnouncement {
    pub is_response: bool,
    pub peer_id: String,
    pub user_id: String,
    pub user_name: String,
    pub school_id: String,
    pub hostname: String,
    pub platform: String,
    pub timestamp: String,
}

/// A discovery announcement or response carrying this peer's identity.
/// The platform name is supplied by the host, which knows its OS; the
/// hostname comes from the host lookup with its documented fallback.
pub fn compose_discovery(
    is_response: bool,
    peer_id: &str,
    user_id: &str,
    user_name: &str,
    school_id: &str,
    platform: &str,
) -> (r: DiscoveryAnnouncement)
    ensures
        r.is_response == is_response,
        r.peer_id@ == peer_id@,
        r.user_id@ == user_id@,
        r.user_name@ == user_name@,
        r.school_id@ == school_id@,
        r.platform@ == platform@,
{
    DiscoveryAnnouncement {
        is_response,
        peer_id: peer_id.to_owned(),
        user_id: user_id.to_owned(),
        user_name: user_name.to_owned(),
        school_id: school_id.to_owned(),
        hostname: get_hostname(),
        platform: platform.to_owned(),
        timestamp: crate::platform::now_rfc3339(),
    }
}

} // verus!
