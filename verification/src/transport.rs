//! The Agent R side channel: a one-time bootstrap token that the first
//! loopback connection must present, compared in constant time, and frames
//! that carry a big-endian length before their bytes.
use vstd::prelude::*;

use crate::text::{owned, string_from_chars};

verus! {

/// Why the side channel refused a connection or a frame.
#[derive(Debug, Clone, PartialEq, Eq)]
pub enum AgentTransportError {
    Io(String),
    Json(String),
    TooLarge(usize),
    ProtocolVersion(u16),
    NonLoopback(String),
    TokenConsumed,
    InvalidAuthentication,
}

/// Compares two byte strings without stopping at the first difference.
pub fn constant_time_eq(left: &[u8], right: &[u8]) -> (r: bool)
    ensures
        r == (left@ == right@),
{
    if left.len() != right.len() {
        return false;
    }
    let n = left.len();
    let mut difference: u8 = 0;
    let mut i: usize = 0;
    while i < n
        invariant
            n == left@.len(),
            n == right@.len(),
            0 <= i <= n,
            (difference == 0) == (forall|k: int| 0 <= k < i ==> left@[k] == right@[k]),
        decreases n - i,
    {
        let a = left[i];
        let b = right[i];
        let d = difference;
        let x = a ^ b;
        assert((d | x) == 0 <==> (d == 0 && x == 0)) by (bit_vector);
        assert((x == 0) <==> (a == b)) by (bit_vector)
            requires
                x == a ^ b,
        ;
        difference = d | x;
        i = i + 1;
    }
    proof {
        if difference == 0 {
            assert(left@ =~= right@);
        }
    }
    difference == 0
}

pub open spec fn hex_char(n: u8) -> char {
    if n < 10 {
        ((48 + n) as u8) as char
    } else {
        ((87 + n) as u8) as char
    }
}

/// Two lower-case hex digits per byte, high nibble first.
pub open spec fn hex_of(bytes: Seq<u8>) -> Seq<char>
    decreases bytes.len(),
{
    if bytes.len() == 0 {
        Seq::empty()
    } else {
        hex_of(bytes.drop_last()).push(hex_char(bytes.last() >> 4)).push(
            hex_char(bytes.last() & 0x0f),
        )
    }
}

fn hex_char_exec(n: u8) -> (r: char)
    requires
        n < 16,
    ensures
        r == hex_char(n),
{
    if n < 10 {
        (48 + n) as char
    } else {
        (87 + n) as char
    }
}

/// Lower-case hex text of bytes.
pub fn hex_encode(bytes: &[u8]) -> (r: String)
    ensures
        r@ == hex_of(bytes@),
{
    let n = bytes.len();
    let mut out: Vec<char> = Vec::new();
    let mut i: usize = 0;
    while i < n
        invariant
            n == bytes@.len(),
            0 <= i <= n,
            out@ == hex_of(bytes@.take(i as int)),
        decreases n - i,
    {
        let b = bytes[i];
        let hi = b >> 4;
        let lo = b & 0x0f;
        assert(hi < 16 && lo < 16) by (bit_vector)
            requires
                hi == b >> 4,
                lo == b & 0x0f,
        ;
        out.push(hex_char_exec(hi));
        out.push(hex_char_exec(lo));
        proof {
            assert(bytes@.take(i + 1).drop_last() =~= bytes@.take(i as int));
            assert(bytes@.take(i + 1).last() == b);
        }
        i = i + 1;
    }
    assert(bytes@.take(n as int) =~= bytes@);
    string_from_chars(&out)
}

/// The length a big-endian four-byte header announces.
pub open spec fn header_value(h: [u8; 4]) -> int {
    h[0] * 16777216 + h[1] * 65536 + h[2] * 256 + h[3]
}

/// The header of a frame of `len` bytes, refused when the frame exceeds
/// `max_frame_bytes`.
pub fn frame_header(len: usize, max_frame_bytes: usize) -> (r: Result<[u8; 4], AgentTransportError>)
    requires
        max_frame_bytes <= u32::MAX,
    ensures
        len > max_frame_bytes ==> r == Err::<[u8; 4], AgentTransportError>(
            AgentTransportError::TooLarge(len),
        ),
        len <= max_frame_bytes ==> (r matches Ok(h) && header_value(h) == len),
{
    if len > max_frame_bytes {
        return Err(AgentTransportError::TooLarge(len));
    }
    let v = len as u32;
    let h0 = (v >> 24) as u8;
    let h1 = ((v >> 16) & 0xff) as u8;
    let h2 = ((v >> 8) & 0xff) as u8;
    let h3 = (v & 0xff) as u8;
    assert(h0 * 16777216 + h1 * 65536 + h2 * 256 + h3 == v) by (bit_vector)
        requires
            h0 == (v >> 24) as u8,
            h1 == ((v >> 16) & 0xff) as u8,
            h2 == ((v >> 8) & 0xff) as u8,
            h3 == (v & 0xff) as u8,
    ;
    let h: [u8; 4] = [h0, h1, h2, h3];
    assert(h[0] == h0 && h[1] == h1 && h[2] == h2 && h[3] == h3);
    Ok(h)
}

/// The length a frame header announces, refused above `max_frame_bytes`.
pub fn frame_length(header: [u8; 4], max_frame_bytes: usize) -> (r: Result<usize, AgentTransportError>)
    ensures
        header_value(header) > max_frame_bytes ==> r == Err::<usize, AgentTransportError>(
            AgentTransportError::TooLarge(header_value(header) as usize),
        ),
        header_value(header) <= max_frame_bytes ==> r == Ok::<usize, AgentTransportError>(
            header_value(header) as usize,
        ),
{
    let v: u64 = (header[0] as u64) * 16777216 + (header[1] as u64) * 65536 + (header[2] as u64)
        * 256 + (header[3] as u64);
    if v > max_frame_bytes as u64 {
        proof {
            assert(v <= u32::MAX);
        }
        return Err(AgentTransportError::TooLarge(v as usize));
    }
    Ok(v as usize)
}

/// The one-time token the first Agent R connection must present.
pub struct BootstrapToken {
    token: Option<String>,
}

impl BootstrapToken {
    /// The token still waiting to be presented, if any.
    pub closed spec fn pending(&self) -> Option<Seq<char>> {
        match self.token {
            Some(t) => Some(t@),
            None => None,
        }
    }

    /// A token made from random bytes, as lower-case hex.
    pub fn from_random(bytes: &[u8]) -> (r: Self)
        ensures
            r.pending() == Some(hex_of(bytes@)),
    {
        BootstrapToken { token: Some(hex_encode(bytes)) }
    }

    pub fn bootstrap_token(&self) -> (r: Result<&str, AgentTransportError>)
        ensures
            match self.pending() {
                Some(t) => r matches Ok(s) && s@ == t,
                None => r == Err::<&str, AgentTransportError>(AgentTransportError::TokenConsumed),
            },
    {
        match &self.token {
            Some(t) => Ok(t.as_str()),
            None => Err(AgentTransportError::TokenConsumed),
        }
    }

    /// Checks the first frame of a connection: a request of type
    /// `authenticate` carrying the token. The token is consumed when it is
    /// accepted, so it can be used once.
    pub fn authenticate(
        &mut self,
        is_request: bool,
        message_type: Option<&str>,
        presented: Option<&str>,
    ) -> (r: Result<(), AgentTransportError>)
        ensures
            old(self).pending() is None ==> r == Err::<(), AgentTransportError>(
                AgentTransportError::TokenConsumed,
            ) && final(self).pending() is None,
            old(self).pending() matches Some(t) ==> {
                let valid = is_request && (message_type matches Some(m) && m@ == "authenticate"@)
                    && (presented matches Some(p) && p@.len() == t.len() && p@ == t);
                &&& valid ==> r is Ok && final(self).pending() is None
                &&& !valid ==> r == Err::<(), AgentTransportError>(
                    AgentTransportError::InvalidAuthentication,
                ) && final(self).pending() == old(self).pending()
            },
    {
        let expected = match &self.token {
            None => {
                return Err(AgentTransportError::TokenConsumed);
            },
            Some(t) => t,
        };
        let type_ok = match message_type {
            Some(m) => crate::text::str_eq(m, "authenticate"),
            None => false,
        };
        let token_ok = match presented {
            Some(p) => {
                let same_bytes = constant_time_eq(expected.as_str().as_bytes(), p.as_bytes());
                proof {
                    if same_bytes {
                        vstd::utf8::encode_utf8_decode_utf8(expected@);
                        vstd::utf8::encode_utf8_decode_utf8(p@);
                    }
                    if p@ == expected@ {
                        assert(p@.len() == expected@.len());
                    }
                }
                same_bytes
            },
            None => false,
        };
        if !(is_request && type_ok && token_ok) {
            return Err(AgentTransportError::InvalidAuthentication);
        }
        self.token = None;
        Ok(())
    }
}

} // verus!
