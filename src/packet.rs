//! The direction and drop status of a logged message, and the direction
//! scope that a suppression rule applies to.
use vstd::prelude::*;
use crate::text::same_text;

verus! {

/// One direction of an exchange, and whether it is being dropped; a dropped
/// direction carries the delay in milliseconds before it fails.
#[derive(Clone, Copy, Debug, PartialEq, Eq, Structural)]
pub enum PacketType {
    Request,
    Response,
    RequestDropped(u64),
    ResponseDropped(u64),
}

/// Which directions of an exchange a suppression rule applies to.
#[derive(Clone, Copy, Debug, PartialEq, Eq, Hash, Structural)]
pub enum SuppressType {
    Request,
    Response,
    All,
}

/// Whether a packet belongs to the request direction.
pub open spec fn request_side(p: PacketType) -> bool {
    p is Request || p is RequestDropped
}

/// The label that a log line gives each kind of packet.
pub open spec fn packet_label(p: PacketType) -> Seq<char> {
    match p {
        PacketType::Request => "REQUEST"@,
        PacketType::Response => "RESPONSE"@,
        PacketType::RequestDropped(_) => "DROPPED REQUEST"@,
        PacketType::ResponseDropped(_) => "DROPPED RESPONSE"@,
    }
}

/// Whether a rule of scope `st` applies to a packet `p`: a request-only rule
/// to an undropped request, a response-only rule to an undropped response,
/// and a rule for both directions to anything.
pub open spec fn scope_applies(p: PacketType, st: SuppressType) -> bool {
    match st {
        SuppressType::Request => p == PacketType::Request,
        SuppressType::Response => p == PacketType::Response,
        SuppressType::All => true,
    }
}

/// The scope that an upper-cased scope word names: `REQUEST`, `RESPONSE`,
/// or `ALL` (also written as nothing at all).
pub open spec fn scope_of_upper(u: Seq<char>) -> Option<SuppressType> {
    if u == "REQUEST"@ {
        Some(SuppressType::Request)
    } else if u == "RESPONSE"@ {
        Some(SuppressType::Response)
    } else if u == "ALL"@ || u.len() == 0 {
        Some(SuppressType::All)
    } else {
        None
    }
}

/// The message for a scope word that names no scope.
pub open spec fn scope_error(s: Seq<char>) -> Seq<char> {
    "Unable to parse '"@ + s + "' as [REQUEST|RESPONSE|ALL]"@
}

/// What `str::to_uppercase` makes of a string.
pub uninterp spec fn upper_of(s: Seq<char>) -> Seq<char>;

/// Relies on `str::to_uppercase`: the upper-case mapping of each character,
/// which depends on the characters alone; every character maps to at least
/// one, so exactly the empty string maps to the empty string.
#[verifier::external_body]
fn to_upper(s: &str) -> (r: String)
    ensures
        r@ == upper_of(s@),
        s@.len() == 0 <==> r@.len() == 0,
{
    s.to_uppercase()
}

impl PacketType {
    /// Whether this packet is a dropped one, of either direction.
    pub open spec fn dropped(self) -> bool {
        self is RequestDropped || self is ResponseDropped
    }

    /// The label of this packet in a log line.
    pub fn to_string(&self) -> (r: String)
        ensures
            r@ == packet_label(*self),
    {
        match self {
            PacketType::Request => String::from_str("REQUEST"),
            PacketType::Response => String::from_str("RESPONSE"),
            PacketType::RequestDropped(_) => String::from_str("DROPPED REQUEST"),
            PacketType::ResponseDropped(_) => String::from_str("DROPPED RESPONSE"),
        }
    }

    /// Whether a suppression rule of scope `st` applies to this packet.
    pub fn suppress(&self, st: SuppressType) -> (r: bool)
        ensures
            r == scope_applies(*self, st),
    {
        match st {
            SuppressType::Request => matches!(self, PacketType::Request),
            SuppressType::Response => matches!(self, PacketType::Response),
            SuppressType::All => true,
        }
    }

    /// Whether this packet is a dropped one.
    pub fn is_dropped(&self) -> (r: bool)
        ensures
            r == self.dropped(),
    {
        matches!(self, PacketType::RequestDropped(_) | PacketType::ResponseDropped(_))
    }
}

impl SuppressType {
    /// The scope that an already upper-cased word names, if any.
    pub fn from_upper(u: &str) -> (r: Option<SuppressType>)
        ensures
            r == scope_of_upper(u@),
    {
        if same_text(u, "REQUEST") {
            Some(SuppressType::Request)
        } else if same_text(u, "RESPONSE") {
            Some(SuppressType::Response)
        } else if same_text(u, "ALL") || u.is_empty() {
            Some(SuppressType::All)
        } else {
            None
        }
    }

    /// Reads a scope word, whatever its case.
    pub fn parse(s: &str) -> (r: Result<SuppressType, String>)
        ensures
            r matches Ok(t) ==> scope_of_upper(upper_of(s@)) == Some(t),
            r matches Err(e) ==> scope_of_upper(upper_of(s@)) is None && e@ == scope_error(s@),
            s@.len() == 0 ==> r == Ok::<SuppressType, String>(SuppressType::All),
    {
        let u = to_upper(s);
        proof {
            reveal_strlit("REQUEST");
            reveal_strlit("RESPONSE");
        }
        match SuppressType::from_upper(u.as_str()) {
            Some(t) => Ok(t),
            None => {
                let mut e = String::from_str("Unable to parse '");
                e.append(s);
                e.append("' as [REQUEST|RESPONSE|ALL]");
                Err(e)
            }
        }
    }
}

impl std::str::FromStr for SuppressType {
    type Err = String;

    fn from_str(s: &str) -> Result<SuppressType, String> {
        SuppressType::parse(s)
    }
}

} // verus!
