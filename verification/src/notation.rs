//! Short-name conventions of the asset notation: the display word behind
//! a one-letter type code, and the type marker carried at the tail of an
//! asset reference token.

use vstd::prelude::*;
use vstd::string::StrSliceExecFns;
use vstd::string::StringExecFns;
use crate::errors::VqlError;
use crate::strutil::str_eq;
use crate::strutil::chars_of;
use crate::strutil::strip_lead_vec;
use crate::strutil::strip_lead;
use crate::strutil::push_char;

verus! {

/// The display word behind a one-letter type code; an unknown code is
/// echoed with a `type` suffix.
pub open spec fn type_name_of(s: Seq<char>) -> Seq<char> {
    if s == "m"@ {
        "model"@
    } else if s == "c"@ {
        "controller"@
    } else if s == "u"@ {
        "ui"@
    } else if s == "s"@ {
        "service"@
    } else if s == "r"@ {
        "repository"@
    } else if s == "h"@ {
        "helper"@
    } else if s == "t"@ {
        "test"@
    } else if s == "d"@ {
        "middleware"@
    } else if s == "a"@ {
        "api"@
    } else if s == "v"@ {
        "view"@
    } else if s == "g"@ {
        "config"@
    } else {
        s + "type"@
    }
}

/// The display word behind a one-letter type code.
pub fn get_type_name_from_short_name(short_name: &str) -> (r: String)
    ensures
        r@ == type_name_of(short_name@),
{
    if str_eq(short_name, "m") {
        "model".to_owned()
    } else if str_eq(short_name, "c") {
        "controller".to_owned()
    } else if str_eq(short_name, "u") {
        "ui".to_owned()
    } else if str_eq(short_name, "s") {
        "service".to_owned()
    } else if str_eq(short_name, "r") {
        "repository".to_owned()
    } else if str_eq(short_name, "h") {
        "helper".to_owned()
    } else if str_eq(short_name, "t") {
        "test".to_owned()
    } else if str_eq(short_name, "d") {
        "middleware".to_owned()
    } else if str_eq(short_name, "a") {
        "api".to_owned()
    } else if str_eq(short_name, "v") {
        "view".to_owned()
    } else if str_eq(short_name, "g") {
        "config".to_owned()
    } else {
        let mut out = short_name.to_owned();
        out.append("type");
        out
    }
}

/// An ASCII letter.
pub open spec fn is_ascii_letter(c: char) -> bool {
    ||| ('a' as u32) <= (c as u32) && (c as u32) <= ('z' as u32)
    ||| ('A' as u32) <= (c as u32) && (c as u32) <= ('Z' as u32)
}

/// The caret-marked type of an asset reference token: its last character,
/// which must be a letter, read after any leading plus signs.
pub fn get_asset_type_from_ref(asset_ref: &str) -> (r: Result<String, VqlError>)
    ensures
        ({
            let stripped = strip_lead(asset_ref@, '+');
            match r {
                Ok(out) => stripped.len() > 0 && is_ascii_letter(stripped.last()) && out@ == seq![
                    '^',
                    stripped.last(),
                ],
                Err(e) => (stripped.len() == 0 || !is_ascii_letter(stripped.last())) && (e matches
                VqlError::UnrecognizedFormat { raw } && raw@ == asset_ref@),
            }
        }),
{
    let v = chars_of(asset_ref);
    let stripped = strip_lead_vec(&v, '+');
    if stripped.len() == 0 {
        return Err(VqlError::UnrecognizedFormat { raw: asset_ref.to_owned() });
    }
    let last = stripped[stripped.len() - 1];
    let u = last as u32;
    let letter = (('a' as u32) <= u && u <= ('z' as u32)) || (('A' as u32) <= u && u <= ('Z'
        as u32));
    if !letter {
        return Err(VqlError::UnrecognizedFormat { raw: asset_ref.to_owned() });
    }
    let mut out = String::new();
    push_char(&mut out, '^');
    push_char(&mut out, last);
    proof {
        assert(out@ =~= seq!['^', strip_lead(asset_ref@, '+').last()]);
    }
    Ok(out)
}

} // verus!
