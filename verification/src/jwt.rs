//! The pure part of bearer-token extraction: deciding whether an
//! authorization header is well formed and carving the token out of it.
//!
//! The surrounding middleware hands in the header's raw bytes and passes
//! the extracted token on to its JWT library; decoding and signature
//! verification are that library's work and stay outside this crate, which
//! is why the decode-failure variant carries the decoder's message as
//! plain text.

use vstd::prelude::*;
use vstd::string::StringExecFns;

verus! {

/// Why a bearer token could not be taken from a request.
#[derive(Debug)]
pub enum JwtDecodeErrors {
    /// The authorization header holds bytes outside visible ASCII.
    InvalidAuthHeader,
    /// The authorization header does not start with the bearer scheme.
    InvalidJWTHeader,
    /// The token did not decode; the decoder's own message is carried.
    InvalidJWTToken(String),
}

/// A byte the header may hold: visible ASCII, space through tilde.
pub open spec fn visible_ascii(b: u8) -> bool {
    32 <= b <= 126
}

/// The bytes of the bearer scheme prefix, `Bearer` and one space.
pub open spec fn bearer_prefix() -> Seq<u8> {
    seq![66u8, 101u8, 97u8, 114u8, 101u8, 114u8, 32u8]
}

impl JwtDecodeErrors {
    /// The message this error is reported with.
    pub fn to_error_string(&self) -> (s: String)
        ensures
            match self {
                JwtDecodeErrors::InvalidAuthHeader => s@
                    == "Invalid authorization header - header contains invalid ASCII characters"@,
                JwtDecodeErrors::InvalidJWTHeader => s@
                    == "Invalid authorization header - header need to have this format 'Bearer HEADER.PAYLOAD.SIGNATURE' where all three parts need to be base64 encoded and separated by a dot"@,
                JwtDecodeErrors::InvalidJWTToken(e) => s@
                    == "Invalid JWT token - an error occurred when decoding token: "@ + e@,
            },
    {
        match self {
            JwtDecodeErrors::InvalidAuthHeader => {
                "Invalid authorization header - header contains invalid ASCII characters".to_owned()
            },
            JwtDecodeErrors::InvalidJWTHeader => {
                "Invalid authorization header - header need to have this format 'Bearer HEADER.PAYLOAD.SIGNATURE' where all three parts need to be base64 encoded and separated by a dot".to_owned()
            },
            JwtDecodeErrors::InvalidJWTToken(e) => {
                "Invalid JWT token - an error occurred when decoding token: ".to_owned().concat(
                    e.as_str(),
                )
            },
        }
    }
}

/// Take the bearer token out of an authorization header's bytes: the
/// header must be visible ASCII throughout and start with `Bearer` and a
/// space; what follows the space is the token, returned byte for byte.
pub fn parse_bearer_header(header: &[u8]) -> (r: Result<Vec<u8>, JwtDecodeErrors>)
    ensures
        match r {
            Ok(token) => {
                &&& forall|i: int| 0 <= i < header@.len() ==> visible_ascii(#[trigger] header@[i])
                &&& header@.len() >= 7
                &&& header@.take(7) == bearer_prefix()
                &&& token@ == header@.skip(7)
            },
            Err(JwtDecodeErrors::InvalidAuthHeader) => exists|i: int|
                0 <= i < header@.len() && !visible_ascii(#[trigger] header@[i]),
            Err(JwtDecodeErrors::InvalidJWTHeader) => {
                &&& forall|i: int| 0 <= i < header@.len() ==> visible_ascii(#[trigger] header@[i])
                &&& !(header@.len() >= 7 && header@.take(7) == bearer_prefix())
            },
            Err(JwtDecodeErrors::InvalidJWTToken(_)) => false,
        },
{
    let n = header.len();
    let mut i: usize = 0;
    while i < n
        invariant
            n == header@.len(),
            i <= n,
            forall|j: int| 0 <= j < i ==> visible_ascii(#[trigger] header@[j]),
        decreases n - i,
    {
        let b = header[i];
        if b < 32 || b > 126 {
            return Err(JwtDecodeErrors::InvalidAuthHeader);
        }
        i += 1;
    }
    if n < 7 {
        return Err(JwtDecodeErrors::InvalidJWTHeader);
    }
    if header[0] != 66 || header[1] != 101 || header[2] != 97 || header[3] != 114 || header[4]
        != 101 || header[5] != 114 || header[6] != 32 {
        proof {
            assert(header@.take(7) != bearer_prefix()) by {
                if header@.take(7) == bearer_prefix() {
                    assert(header@.take(7)[0] == bearer_prefix()[0]);
                    assert(header@.take(7)[1] == bearer_prefix()[1]);
                    assert(header@.take(7)[2] == bearer_prefix()[2]);
                    assert(header@.take(7)[3] == bearer_prefix()[3]);
                    assert(header@.take(7)[4] == bearer_prefix()[4]);
                    assert(header@.take(7)[5] == bearer_prefix()[5]);
                    assert(header@.take(7)[6] == bearer_prefix()[6]);
                }
            }
        }
        return Err(JwtDecodeErrors::InvalidJWTHeader);
    }
    proof {
        assert(header@.take(7) =~= bearer_prefix());
    }
    let mut token: Vec<u8> = Vec::new();
    let mut i: usize = 7;
    while i < n
        invariant
            n == header@.len(),
            7 <= i <= n,
            token@ == header@.subrange(7, i as int),
        decreases n - i,
    {
        let b = header[i];
        token.push(b);
        proof {
            assert(header@.subrange(7, i + 1) =~= header@.subrange(7, i as int).push(
                header@[i as int],
            ));
        }
        i += 1;
    }
    proof {
        assert(token@ =~= header@.skip(7));
    }
    Ok(token)
}

} // verus!
