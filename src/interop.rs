//! Names used when describing schemas in the JSON Schema vocabulary.

use vstd::prelude::*;
use crate::text::text_eq;

verus! {

/// The JSON Schema `format` keyword for a string format name; JSON Schema has
/// no generic IP format, so `Ip` maps to `ipv4`, and unknown names to `string`.
pub open spec fn json_schema_format(name: Seq<char>) -> Seq<char> {
    if name == "Email"@ { "email"@ }
    else if name == "Url"@ { "uri"@ }
    else if name == "Uuid"@ { "uuid"@ }
    else if name == "Date"@ { "date"@ }
    else if name == "DateTime"@ { "date-time"@ }
    else if name == "Ip"@ { "ipv4"@ }
    else if name == "Ipv4"@ { "ipv4"@ }
    else if name == "Ipv6"@ { "ipv6"@ }
    else { "string"@ }
}

pub fn format_to_json_schema_format(format_name: &str) -> (r: &'static str)
    ensures
        r@ == json_schema_format(format_name@),
{
    proof {
        reveal_strlit("email");
        reveal_strlit("uri");
        reveal_strlit("uuid");
        reveal_strlit("date");
        reveal_strlit("date-time");
        reveal_strlit("ipv4");
        reveal_strlit("ipv6");
        reveal_strlit("string");
    }
    if text_eq(format_name, "Email") { "email" }
    else if text_eq(format_name, "Url") { "uri" }
    else if text_eq(format_name, "Uuid") { "uuid" }
    else if text_eq(format_name, "Date") { "date" }
    else if text_eq(format_name, "DateTime") { "date-time" }
    else if text_eq(format_name, "Ip") { "ipv4" }
    else if text_eq(format_name, "Ipv4") { "ipv4" }
    else if text_eq(format_name, "Ipv6") { "ipv6" }
    else { "string" }
}

} // verus!
