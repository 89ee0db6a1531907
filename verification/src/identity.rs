//! The configured client identifier: the shared 16-byte identity that every
//! handshake must present, and its textual configuration form.

use vstd::prelude::*;

verus! {

/// The 16 bytes that a textual identity denotes, when the text is one of
/// the encodings that `uuid::Uuid::parse_str` accepts; `None` otherwise.
pub uninterp spec fn uuid_bytes_of(s: Seq<char>) -> Option<Seq<u8>>;

/// The configured client identifier. When the configured text was not a
/// parseable identity, the identifier is a sentinel that matches no wire
/// identity at all, so a session can never silently authenticate.
pub struct Identifier {
    key: Option<[u8; 16]>,
}

impl View for Identifier {
    type V = Option<Seq<u8>>;

    closed spec fn view(&self) -> Option<Seq<u8>> {
        match self.key {
            Some(k) => Some(k@),
            None => None,
        }
    }
}

/// Relies on `uuid::Uuid::parse_str` and `Uuid::into_bytes`: the parse
/// accepts or rejects the text by its characters alone and never panics,
/// and `into_bytes` yields the 16 bytes of the parsed identity.
#[verifier::external_body]
fn parse_uuid_text(s: &str) -> (r: Option<[u8; 16]>)
    ensures
        r matches Some(b) ==> uuid_bytes_of(s@) == Some(b@),
        r is None ==> uuid_bytes_of(s@) is None,
{
    match uuid::Uuid::parse_str(s) {
        Ok(u) => Some(u.into_bytes()),
        Err(_) => None,
    }
}

impl Identifier {
    /// Identifier configured from its textual form. Unparsable text yields
    /// the sentinel, never a value a client could present.
    pub fn from_text(s: &str) -> (r: Identifier)
        ensures
            r@ == uuid_bytes_of(s@),
    {
        Identifier { key: parse_uuid_text(s) }
    }

    /// Identifier configured directly from its 16 bytes.
    pub fn from_bytes(b: [u8; 16]) -> (r: Identifier)
        ensures
            r@ == Some(b@),
    {
        Identifier { key: Some(b) }
    }

    /// The sentinel identifier: it accepts no wire identity.
    pub fn sentinel() -> (r: Identifier)
        ensures
            r@ is None,
    {
        Identifier { key: None }
    }

    /// Whether sixteen wire bytes are exactly the configured identity.
    pub fn accepts(&self, bytes: &[u8]) -> (r: bool)
        requires
            bytes@.len() == 16,
        ensures
            r <==> match self@ {
                Some(k) => bytes@ == k,
                None => false,
            },
    {
        match self.key {
            None => false,
            Some(k) => {
                let mut i: usize = 0;
                while i < 16
                    invariant
                        0 <= i <= 16,
                        bytes@.len() == 16,
                        k@.len() == 16,
                        self@ == Some(k@),
                        forall|j: int| 0 <= j < i ==> bytes@[j] == k@[j],
                    decreases 16 - i,
                {
                    if bytes[i] != k[i] {
                        proof {
                            assert(bytes@[i as int] != k@[i as int]);
                        }
                        return false;
                    }
                    i = i + 1;
                }
                proof {
                    assert(bytes@ =~= k@);
                }
                true
            },
        }
    }
}

} // verus!
