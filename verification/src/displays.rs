//! The list of monitors offered in the startup settings.
use vstd::prelude::*;

use crate::json::{JsonData, JsonMap, JsonNumber, JsonValue};
use crate::text::{decimal, decimal_string};

verus! {

/// The decimal representation of a signed number.
pub open spec fn signed_decimal(n: int) -> Seq<char> {
    if n < 0 {
        seq!['-'] + decimal((-n) as nat)
    } else {
        decimal(n as nat)
    }
}

/// Renders a signed number in decimal.
pub fn signed_decimal_string(n: i32) -> (r: String)
    ensures
        r@ == signed_decimal(n as int),
{
    if n < 0 {
        let magnitude: u64 = (0i64 - (n as i64)) as u64;
        let digits = decimal_string(magnitude);
        let mut r = String::new();
        crate::text::push_char(&mut r, '-');
        r.append(digits.as_str());
        r
    } else {
        decimal_string(n as u64)
    }
}

/// A JSON number for a signed integer.
pub open spec fn signed_number(n: int) -> JsonNumber {
    if n < 0 {
        JsonNumber::NegInt(n as i64)
    } else {
        JsonNumber::PosInt(n as u64)
    }
}

fn signed_number_value(n: i32) -> (r: JsonNumber)
    ensures
        r == signed_number(n as int),
{
    if n < 0 {
        JsonNumber::NegInt(n as i64)
    } else {
        JsonNumber::PosInt(n as u64)
    }
}

/// The label of a monitor: `Primary (W×H)` for the primary one, otherwise
/// `Display N (W×H)` with N counted from 1.
pub open spec fn display_label(index: nat, width: u32, height: u32, is_primary: bool) -> Seq<char> {
    let size = "("@ + decimal(width as nat) + "×"@ + decimal(height as nat) + ")"@;
    if is_primary {
        "Primary "@ + size
    } else {
        "Display "@ + decimal(index + 1) + " "@ + size
    }
}

/// The description of a monitor, as an object.
pub open spec fn display_entry_of(
    index: nat,
    x: i32,
    y: i32,
    width: u32,
    height: u32,
    is_primary: bool,
) -> Map<Seq<char>, JsonData> {
    Map::empty().insert("index"@, JsonData::Number(JsonNumber::PosInt(index as u64))).insert(
        "id"@,
        JsonData::Str(signed_decimal(x as int) + ":"@ + signed_decimal(y as int)),
    ).insert("isPrimary"@, JsonData::Bool(is_primary)).insert(
        "label"@,
        JsonData::Str(display_label(index, width, height, is_primary)),
    ).insert("width"@, JsonData::Number(JsonNumber::PosInt(width as u64))).insert(
        "height"@,
        JsonData::Number(JsonNumber::PosInt(height as u64)),
    ).insert("x"@, JsonData::Number(signed_number(x as int))).insert(
        "y"@,
        JsonData::Number(signed_number(y as int)),
    )
}

/// Describes the monitor at position `index`, placed at (`x`, `y`) with the
/// given size.
pub fn display_entry(index: usize, x: i32, y: i32, width: u32, height: u32, is_primary: bool) -> (r:
    JsonValue)
    requires
        index < usize::MAX,
    ensures
        r@ == JsonData::Object(display_entry_of(index as nat, x, y, width, height, is_primary)),
{
    let mut size = String::new();
    size.append("(");
    size.append(decimal_string(width as u64).as_str());
    size.append("×");
    size.append(decimal_string(height as u64).as_str());
    size.append(")");
    let mut label = String::new();
    if is_primary {
        label.append("Primary ");
    } else {
        label.append("Display ");
        label.append(decimal_string((index + 1) as u64).as_str());
        label.append(" ");
    }
    label.append(size.as_str());
    let mut id = signed_decimal_string(x);
    id.append(":");
    id.append(signed_decimal_string(y).as_str());
    let mut m = JsonMap::new();
    m.insert("index".to_owned(), JsonValue::Number(JsonNumber::PosInt(index as u64)));
    m.insert("id".to_owned(), JsonValue::String(id));
    m.insert("isPrimary".to_owned(), JsonValue::Bool(is_primary));
    m.insert("label".to_owned(), JsonValue::String(label));
    m.insert("width".to_owned(), JsonValue::Number(JsonNumber::PosInt(width as u64)));
    m.insert("height".to_owned(), JsonValue::Number(JsonNumber::PosInt(height as u64)));
    m.insert("x".to_owned(), JsonValue::Number(signed_number_value(x)));
    m.insert("y".to_owned(), JsonValue::Number(signed_number_value(y)));
    JsonValue::Object(m)
}

} // verus!
