//! HTTP port mappings: which container ports may be published, the display
//! name that labels them, and the lifetime of the one-use access tickets.

use vstd::prelude::*;

use vstd::utf8::encode_utf8;

use crate::digest::sha256_hex;
use crate::encoding::{base64_url_encode, base64_url_no_pad};
use crate::storage::StorageError;
use crate::text::{
    any_control, chars_of, has_control, lemma_trim_idempotent, string_from_chars, trim,
    trimmed, utf8_len, utf8_len_at_least,
};

verus! {

/// Ports that a workspace may publish: 80, 443 and every unprivileged port.
pub open spec fn http_port_allowed(port: u16) -> bool {
    port == 80 || port == 443 || 1024 <= port
}

/// Listeners of the platform itself, never published for a workspace.
pub open spec fn http_port_reserved(port: u16) -> bool {
    port == 22 || port == 2222 || port == 7681 || port == 8080 || port == 8081 || port == 8443
}

/// Accepts exactly the allowed ports that the platform does not reserve.
pub fn validate_http_port(port: u16) -> (result: Result<(), StorageError>)
    ensures
        result is Ok <==> (http_port_allowed(port) && !http_port_reserved(port)),
        result matches Err(error) ==> error == StorageError::InvalidPortMappingPort,
{
    let allowed = port == 80 || port == 443 || port >= 1024;
    let reserved = port == 22 || port == 2222 || port == 7681 || port == 8080 || port == 8081
        || port == 8443;
    if !allowed || reserved {
        return Err(StorageError::InvalidPortMappingPort);
    }
    Ok(())
}

/// The longest display name, in UTF-8 bytes.
pub const MAX_DISPLAY_NAME_BYTES: usize = 80;

/// What a display name normalizes to: nothing when it is absent or blank,
/// the trimmed text otherwise, refused when that is too long or holds a
/// control character.
pub open spec fn display_name_outcome(value: Option<Seq<char>>) -> Result<Option<Seq<char>>, StorageError> {
    match value {
        None => Ok(None),
        Some(v) => {
            let t = trim(v);
            if t.len() == 0 {
                Ok(None)
            } else if utf8_len(t) > MAX_DISPLAY_NAME_BYTES || has_control(t) {
                Err(StorageError::InvalidPortMappingDisplayName)
            } else {
                Ok(Some(t))
            }
        }
    }
}

pub open spec fn opt_str_view(value: Option<&str>) -> Option<Seq<char>> {
    match value {
        Some(v) => Some(v@),
        None => None,
    }
}

pub open spec fn opt_string_view(value: Option<String>) -> Option<Seq<char>> {
    match value {
        Some(v) => Some(v@),
        None => None,
    }
}

/// Normalizes the optional display name of a mapping.
pub fn validate_display_name(value: Option<&str>) -> (result: Result<Option<String>, StorageError>)
    ensures
        match (result, display_name_outcome(opt_str_view(value))) {
            (Ok(name), Ok(expected)) => opt_string_view(name) == expected,
            (Err(error), Err(expected)) => error == expected,
            _ => false,
        },
{
    let value = match value {
        None => return Ok(None),
        Some(value) => value,
    };
    let chars = chars_of(value);
    let trimmed = trimmed(chars.as_slice());
    if trimmed.len() == 0 {
        return Ok(None);
    }
    if utf8_len_at_least(trimmed.as_slice(), MAX_DISPLAY_NAME_BYTES + 1) || any_control(
        trimmed.as_slice(),
    ) {
        return Err(StorageError::InvalidPortMappingDisplayName);
    }
    Ok(Some(string_from_chars(trimmed.as_slice())))
}

/// What a new mapping request stores: the validated port and display name.
pub open spec fn mapping_request_outcome(port: u16, display_name: Option<Seq<char>>) -> Result<
    Option<Seq<char>>,
    StorageError,
> {
    if !(http_port_allowed(port) && !http_port_reserved(port)) {
        Err(StorageError::InvalidPortMappingPort)
    } else {
        display_name_outcome(display_name)
    }
}

/// Checks a request to publish a port: the port first, then the display
/// name, which it normalizes.
pub fn check_mapping_request(port: u16, display_name: Option<&str>) -> (result: Result<
    Option<String>,
    StorageError,
>)
    ensures
        match (result, mapping_request_outcome(port, opt_str_view(display_name))) {
            (Ok(name), Ok(expected)) => opt_string_view(name) == expected,
            (Err(error), Err(expected)) => error == expected,
            _ => false,
        },
{
    match validate_http_port(port) {
        Ok(()) => {},
        Err(e) => {
            return Err(e);
        },
    }
    validate_display_name(display_name)
}

/// The port mappings of an installation, by workspace and port: the id of
/// the mapping and its display name.
pub open spec fn mapping_at(
    mappings: Map<(u128, u16), (u128, Option<Seq<char>>)>,
    workspace: u128,
    port: u16,
) -> Option<(u128, Option<Seq<char>>)> {
    if mappings.contains_key((workspace, port)) {
        Some(mappings[(workspace, port)])
    } else {
        None
    }
}

/// Creating a mapping with a fresh id: a refused request changes nothing;
/// otherwise a mapping already published for the workspace and port is
/// kept, else the new one is stored; the answer is the stored mapping.
pub open spec fn mappings_after_create(
    mappings: Map<(u128, u16), (u128, Option<Seq<char>>)>,
    workspace: u128,
    port: u16,
    id: u128,
    display_name: Option<Seq<char>>,
) -> (Map<(u128, u16), (u128, Option<Seq<char>>)>, Result<(u128, Option<Seq<char>>), StorageError>) {
    match mapping_request_outcome(port, display_name) {
        Err(e) => (mappings, Err(e)),
        Ok(name) => match mapping_at(mappings, workspace, port) {
            Some(existing) => (mappings, Ok(existing)),
            None => (mappings.insert((workspace, port), (id, name)), Ok((id, name))),
        },
    }
}

/// Publishing a port is idempotent: after a mapping was created, creating
/// one again for the same workspace and port (whatever the new id and
/// display name, if the request is valid) answers the first mapping and
/// changes nothing; a read of that workspace and port gives it back.
pub proof fn lemma_create_mapping_idempotent(
    mappings: Map<(u128, u16), (u128, Option<Seq<char>>)>,
    workspace: u128,
    port: u16,
    id: u128,
    display_name: Option<Seq<char>>,
    again_id: u128,
    again_name: Option<Seq<char>>,
)
    requires
        mappings_after_create(mappings, workspace, port, id, display_name).1 is Ok,
        mapping_request_outcome(port, again_name) is Ok,
    ensures
        ({
            let (after, first) = mappings_after_create(mappings, workspace, port, id, display_name);
            let (again, second) = mappings_after_create(after, workspace, port, again_id, again_name);
            &&& mapping_at(after, workspace, port) == Some(first->Ok_0)
            &&& second == first
            &&& again == after
        }),
{
}

/// How long an issued ticket stays valid, in seconds.
pub const TICKET_TTL_SECONDS: i64 = 60;

/// The expiry of a ticket issued at `now`.
pub fn ticket_expiry(now: i64) -> (expires_at: Result<i64, StorageError>)
    ensures
        match expires_at {
            Ok(at) => now + TICKET_TTL_SECONDS <= i64::MAX && at == now + TICKET_TTL_SECONDS,
            Err(error) => now + TICKET_TTL_SECONDS > i64::MAX && error == StorageError::InvalidTicketTtl,
        },
{
    match now.checked_add(TICKET_TTL_SECONDS) {
        Some(at) => Ok(at),
        None => Err(StorageError::InvalidTicketTtl),
    }
}

/// The shortest ticket or token text that is ever looked up, in bytes.
pub const MIN_SECRET_BYTES: usize = 32;

/// Tickets shorter than 32 bytes are refused before any lookup.
pub fn ticket_may_be_exchanged(ticket: &str) -> (accepted: bool)
    ensures
        accepted == (utf8_len(ticket@) >= MIN_SECRET_BYTES),
{
    let chars = chars_of(ticket);
    utf8_len_at_least(chars.as_slice(), MIN_SECRET_BYTES)
}

/// A stored port number is a port only when it fits in 16 bits.
pub fn decode_internal_port(stored: i64) -> (port: Result<u16, StorageError>)
    ensures
        match port {
            Ok(p) => 0 <= stored <= u16::MAX && p as int == stored,
            Err(error) => !(0 <= stored <= u16::MAX) && error == StorageError::InvalidPortMappingPort,
        },
{
    if 0 <= stored && stored <= 0xFFFF {
        Ok(stored as u16)
    } else {
        Err(StorageError::InvalidPortMappingPort)
    }
}

/// Normalizing a normalized display name gives it back unchanged.
pub proof fn lemma_display_name_idempotent(value: Seq<char>)
    requires
        display_name_outcome(Some(value)) matches Ok(Some(_)),
    ensures
        display_name_outcome(Some(display_name_outcome(Some(value))->Ok_0->Some_0))
            == display_name_outcome(Some(value)),
{
    lemma_trim_idempotent(value);
}


/// A ticket handed to a user once; only its digest is stored.
#[derive(Clone)]
pub struct IssuedPortMappingTicket {
    pub ticket: String,
    pub expires_at: i64,
}

/// Calls `getrandom::fill` on the 32 bytes. Whether the system source
/// answers and what it writes are left open: nothing is stated of either.
#[verifier::external_body]
fn fill_random(bytes: &mut [u8; 32]) -> (filled: bool) {
    getrandom::fill(bytes).is_ok()
}

/// The ticket made of 32 random bytes at `now`, and the digest to store:
/// the bytes in URL-safe base64 without padding, valid for 60 seconds.
pub fn ticket_from_random(random: &[u8; 32], now: i64) -> (issued: Result<
    (IssuedPortMappingTicket, String),
    StorageError,
>)
    ensures
        match issued {
            Ok((t, hash)) => now + TICKET_TTL_SECONDS <= i64::MAX && t.expires_at == now
                + TICKET_TTL_SECONDS && t.ticket@ == base64_url_no_pad(random@) && hash@
                == sha256_hex(encode_utf8(t.ticket@)) && utf8_len(t.ticket@) >= MIN_SECRET_BYTES,
            Err(error) => now + TICKET_TTL_SECONDS > i64::MAX && error == StorageError::InvalidTicketTtl,
        },
{
    let expires_at = ticket_expiry(now)?;
    let ticket = base64_url_encode(random);
    proof {
        crate::encoding::lemma_url_text_shape(random@);
        crate::text::lemma_utf8_len_at_least_len(ticket@);
    }
    let hash = crate::digest::hash_secret(ticket.as_str());
    Ok((IssuedPortMappingTicket { ticket, expires_at }, hash))
}

/// Issues a ticket at `now` from fresh random bytes. An expiry beyond the
/// clock's range is refused before any randomness is drawn; a failing
/// random source is reported as such.
pub fn issue_port_mapping_ticket(now: i64) -> (issued: Result<
    (IssuedPortMappingTicket, String),
    StorageError,
>)
    ensures
        now + TICKET_TTL_SECONDS > i64::MAX ==> issued == Err::<
            (IssuedPortMappingTicket, String),
            StorageError,
        >(StorageError::InvalidTicketTtl),
        match issued {
            Ok((t, hash)) => t.expires_at == now + TICKET_TTL_SECONDS && hash@ == sha256_hex(
                encode_utf8(t.ticket@),
            ) && utf8_len(t.ticket@) >= MIN_SECRET_BYTES && exists|random: Seq<u8>|
                random.len() == 32 && #[trigger] base64_url_no_pad(random) == t.ticket@,
            Err(error) => (error == StorageError::InvalidTicketTtl && now + TICKET_TTL_SECONDS
                > i64::MAX) || (error == StorageError::RandomSource && now + TICKET_TTL_SECONDS
                <= i64::MAX),
        },
{
    ticket_expiry(now)?;
    let mut random: [u8; 32] = [0u8; 32];
    if !fill_random(&mut random) {
        return Err(StorageError::RandomSource);
    }
    let issued = ticket_from_random(&random, now);
    proof {
        if issued is Ok {
            assert(base64_url_no_pad(random@) == issued->Ok_0.0.ticket@);
        }
    }
    issued
}

} // verus!
