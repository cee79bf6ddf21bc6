//! The per-tool argument records and the readers that validate an untyped
//! arguments value against each record's shape. A reader returns `None`
//! exactly where the arguments are rejected as invalid for that tool.
use vstd::prelude::*;
use crate::json::{JsonVal, JsonValue};

verus! {

/// Arguments of the `echo` tool.
pub struct EchoArgs {
    pub message: String,
}

/// Arguments of the `reverse_text` tool.
pub struct ReverseArgs {
    pub text: String,
}

/// Arguments of the `roll_dice` tool.
pub struct DiceArgs {
    pub sides: u8,
}

/// Arguments of the `read_cedra_docs` tool.
pub struct CedraDocsArgs {
    pub path: String,
}

impl DiceArgs {
    /// The side count used when the caller names none.
    pub fn default_sides() -> (r: u8)
        ensures
            r == 6,
    {
        6
    }
}

/// The message of a valid `echo` arguments object; `None` where the value is
/// rejected.
pub open spec fn spec_echo_args(v: JsonVal) -> Option<Seq<char>> {
    match v.get("message"@) {
        Some(m) => m.as_str(),
        None => None,
    }
}

/// The text of a valid `reverse_text` arguments object.
pub open spec fn spec_reverse_args(v: JsonVal) -> Option<Seq<char>> {
    match v.get("text"@) {
        Some(m) => m.as_str(),
        None => None,
    }
}

/// The path of a valid `read_cedra_docs` arguments object.
pub open spec fn spec_docs_args(v: JsonVal) -> Option<Seq<char>> {
    match v.get("path"@) {
        Some(m) => m.as_str(),
        None => None,
    }
}

/// The side count of a valid `roll_dice` arguments object: an object whose
/// `sides`, if present, is an integer that fits a byte; a missing `sides`
/// means the default.
pub open spec fn spec_dice_args(v: JsonVal) -> Option<u8> {
    if !(v is Obj) {
        None
    } else {
        match v.get("sides"@) {
            None => Some(6),
            Some(s) => match s.as_int() {
                Some(i) => if 0 <= i <= 255 {
                    Some(i as u8)
                } else {
                    None
                },
                None => None,
            },
        }
    }
}

/// Validates `echo` arguments.
pub fn read_echo_args(v: &JsonValue) -> (r: Option<EchoArgs>)
    ensures
        match r {
            Some(a) => spec_echo_args(v@) == Some(a.message@),
            None => spec_echo_args(v@) is None,
        },
{
    match v.get("message") {
        Some(m) => match m.as_str() {
            Some(s) => Some(EchoArgs { message: s.clone() }),
            None => None,
        },
        None => None,
    }
}

/// Validates `reverse_text` arguments.
pub fn read_reverse_args(v: &JsonValue) -> (r: Option<ReverseArgs>)
    ensures
        match r {
            Some(a) => spec_reverse_args(v@) == Some(a.text@),
            None => spec_reverse_args(v@) is None,
        },
{
    match v.get("text") {
        Some(m) => match m.as_str() {
            Some(s) => Some(ReverseArgs { text: s.clone() }),
            None => None,
        },
        None => None,
    }
}

/// Validates `read_cedra_docs` arguments.
pub fn read_docs_args(v: &JsonValue) -> (r: Option<CedraDocsArgs>)
    ensures
        match r {
            Some(a) => spec_docs_args(v@) == Some(a.path@),
            None => spec_docs_args(v@) is None,
        },
{
    match v.get("path") {
        Some(m) => match m.as_str() {
            Some(s) => Some(CedraDocsArgs { path: s.clone() }),
            None => None,
        },
        None => None,
    }
}

/// Validates `roll_dice` arguments.
pub fn read_dice_args(v: &JsonValue) -> (r: Option<DiceArgs>)
    ensures
        match r {
            Some(a) => spec_dice_args(v@) == Some(a.sides),
            None => spec_dice_args(v@) is None,
        },
{
    let is_obj = match v {
        JsonValue::Obj(_) => true,
        _ => false,
    };
    if !is_obj {
        return None;
    }
    match v.get("sides") {
        None => Some(DiceArgs { sides: DiceArgs::default_sides() }),
        Some(s) => match s.as_int() {
            Some(i) => if 0 <= i && i <= 255 {
                Some(DiceArgs { sides: i as u8 })
            } else {
                None
            },
            None => None,
        },
    }
}

} // verus!
