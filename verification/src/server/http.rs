//! The decision of a public HTTP(S) connection: which tunnel it is for.
use crate::text::concat3;
use crate::util::HeadMap;
use vstd::prelude::*;

verus! {

/// The public URL that a request asks for: `protocol://host`, with the
/// value of its `host` header field.
pub fn request_url(protocol: &str, head: &HeadMap) -> (res: String)
    requires
        head@.contains_key("host"@),
    ensures
        res@ == protocol@ + "://"@ + head@["host"@],
{
    let host = head.get("host").unwrap();
    concat3(protocol, "://", host.as_str())
}

} // verus!
