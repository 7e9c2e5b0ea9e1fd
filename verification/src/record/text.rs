//! Byte strings and records written out for a reader: bytes as hexadecimal
//! digits, two for each byte.

use vstd::prelude::*;
use vstd::string::StringExecFns;
use crate::record::bytes::{Bytes, BytesReader};
use crate::record::demo_data::{DemoData, DemoDataReader};
use crate::record::layout::{field, field_count, raw};

verus! {

/// The hexadecimal digit for a number below sixteen, in lower case.
pub open spec fn hex_digit(n: int) -> char {
    seq!['0', '1', '2', '3', '4', '5', '6', '7', '8', '9', 'a', 'b', 'c', 'd', 'e', 'f'][n]
}

/// The bytes in hexadecimal: for each byte the digit of its upper half and
/// then the digit of its lower half.
pub open spec fn hex_of(bytes: Seq<u8>) -> Seq<char> {
    Seq::new(
        2 * bytes.len(),
        |i: int|
            hex_digit(
                if i % 2 == 0 {
                    bytes[i / 2] as int / 16
                } else {
                    bytes[i / 2] as int % 16
                },
            ),
    )
}

/// Writes bytes in hexadecimal with `molecule::hex_string`.
///
/// Taken on trust of that function: it writes each byte as two digits in
/// lower case, the upper half first, and nothing else.
#[verifier::external_body]
pub(crate) fn hex_string(input: &[u8]) -> (text: String)
    ensures
        text@ == hex_of(input@),
{
    molecule::hex_string(input)
}

/// The decimal digit for a number below ten.
pub open spec fn digit(n: nat) -> char {
    seq!['0', '1', '2', '3', '4', '5', '6', '7', '8', '9'][n as int]
}

/// The number in decimal digits, without leading zeros.
pub open spec fn decimal_of(n: nat) -> Seq<char>
    decreases n,
{
    if n < 10 {
        seq![digit(n)]
    } else {
        decimal_of(n / 10).push(digit(n % 10))
    }
}

fn digit_str(n: usize) -> (text: &'static str)
    requires
        n < 10,
    ensures
        text@ == seq![digit(n as nat)],
{
    proof {
        reveal_strlit("0");
        reveal_strlit("1");
        reveal_strlit("2");
        reveal_strlit("3");
        reveal_strlit("4");
        reveal_strlit("5");
        reveal_strlit("6");
        reveal_strlit("7");
        reveal_strlit("8");
        reveal_strlit("9");
    }
    let text = match n {
        0 => "0",
        1 => "1",
        2 => "2",
        3 => "3",
        4 => "4",
        5 => "5",
        6 => "6",
        7 => "7",
        8 => "8",
        _ => "9",
    };
    text
}

/// Writes a number in decimal digits.
pub fn decimal_string(n: usize) -> (text: String)
    ensures
        text@ == decimal_of(n as nat),
    decreases n,
{
    if n < 10 {
        String::from_str(digit_str(n))
    } else {
        let text = decimal_string(n / 10).concat(digit_str(n % 10));
        text
    }
}

/// The text for a byte string: the name, and in brackets `0x` and the
/// bytes in hexadecimal.
pub open spec fn named_hex(name: Seq<char>, bytes: Seq<u8>) -> Seq<char> {
    name + "(0x"@ + hex_of(bytes) + ")"@
}

fn named_hex_string(name: &str, bytes: &[u8]) -> (text: String)
    ensures
        text@ == named_hex(name@, bytes@),
{
    let mut text = String::from_str(name);
    text.append("(0x");
    let hex = hex_string(bytes);
    text.append(hex.as_str());
    text.append(")");
    text
}

/// The text for bytes in hexadecimal, with `0x` before it in the
/// alternate form.
pub open spec fn lower_hex_of(bytes: Seq<u8>, alternate: bool) -> Seq<char> {
    if alternate {
        "0x"@ + hex_of(bytes)
    } else {
        hex_of(bytes)
    }
}

fn lower_hex_string(bytes: &[u8], alternate: bool) -> (text: String)
    ensures
        text@ == lower_hex_of(bytes@, alternate),
{
    if alternate {
        String::from_str("0x").concat(hex_string(bytes).as_str())
    } else {
        hex_string(bytes)
    }
}

/// The text for a record: its name, and in braces its three fields, each
/// with its name; the number of further fields follows where there are any.
pub open spec fn record_text(name: Seq<char>, field_name: Seq<char>, s: Seq<u8>) -> Seq<char> {
    name + " { "@ + "demo: "@ + named_hex(field_name, raw(field(s, 0))) + ", curr: "@ + named_hex(
        field_name,
        raw(field(s, 1)),
    ) + ", next: "@ + named_hex(field_name, raw(field(s, 2))) + (if field_count(s) != 3 {
        ", .. ("@ + decimal_of((field_count(s) - 3) as nat) + " fields)"@
    } else {
        Seq::<char>::empty()
    }) + " }"@
}

impl<'r> BytesReader<'r> {
    /// The name of the type.
    pub const NAME: &'static str = "BytesReader";

    /// The byte string as text: its name and its content in hexadecimal.
    pub fn to_string(&self) -> (text: String)
        ensures
            text@ == named_hex("BytesReader"@, raw(self@)),
    {
        named_hex_string(Self::NAME, self.raw_data())
    }

    /// All the bytes of the byte string in hexadecimal.
    pub fn lower_hex(&self, alternate: bool) -> (text: String)
        ensures
            text@ == lower_hex_of(self@, alternate),
    {
        lower_hex_string(self.as_slice(), alternate)
    }

    /// The byte string as text for debugging: its name and all its bytes in
    /// hexadecimal.
    pub fn debug_string(&self) -> (text: String)
        ensures
            text@ == named_hex("BytesReader"@, self@),
    {
        named_hex_string(Self::NAME, self.as_slice())
    }
}

impl Bytes {
    /// The name of the type.
    pub const NAME: &'static str = "Bytes";

    /// The byte string as text: its name and its content in hexadecimal.
    pub fn to_string(&self) -> (text: String)
        ensures
            text@ == named_hex("Bytes"@, raw(self@)),
    {
        named_hex_string(Self::NAME, self.as_reader().raw_data())
    }

    /// All the bytes of the byte string in hexadecimal.
    pub fn lower_hex(&self, alternate: bool) -> (text: String)
        ensures
            text@ == lower_hex_of(self@, alternate),
    {
        lower_hex_string(self.as_slice(), alternate)
    }

    /// The byte string as text for debugging: its name and all its bytes in
    /// hexadecimal.
    pub fn debug_string(&self) -> (text: String)
        ensures
            text@ == named_hex("Bytes"@, self@),
    {
        named_hex_string(Self::NAME, self.as_slice())
    }
}

impl<'r> DemoDataReader<'r> {
    /// The name of the type.
    pub const NAME: &'static str = "DemoDataReader";

    /// The record as text: its name and its fields.
    pub fn to_string(&self) -> (text: String)
        ensures
            text@ == record_text("DemoDataReader"@, "BytesReader"@, self@),
    {
        let mut text = String::from_str(Self::NAME);
        text.append(" { ");
        text.append("demo: ");
        text.append(self.demo().to_string().as_str());
        text.append(", curr: ");
        text.append(self.curr().to_string().as_str());
        text.append(", next: ");
        text.append(self.next().to_string().as_str());
        let extra_count = self.count_extra_fields();
        if extra_count != 0 {
            text.append(", .. (");
            text.append(decimal_string(extra_count).as_str());
            text.append(" fields)");
        }
        text.append(" }");
        text
    }

    /// All the bytes of the record in hexadecimal.
    pub fn lower_hex(&self, alternate: bool) -> (text: String)
        ensures
            text@ == lower_hex_of(self@, alternate),
    {
        lower_hex_string(self.as_slice(), alternate)
    }

    /// The record as text for debugging: its name and all its bytes in
    /// hexadecimal.
    pub fn debug_string(&self) -> (text: String)
        ensures
            text@ == named_hex("DemoDataReader"@, self@),
    {
        named_hex_string(Self::NAME, self.as_slice())
    }
}

impl DemoData {
    /// The name of the type.
    pub const NAME: &'static str = "DemoData";

    /// The record as text: its name and its fields.
    pub fn to_string(&self) -> (text: String)
        ensures
            text@ == record_text("DemoData"@, "Bytes"@, self@),
    {
        let mut text = String::from_str(Self::NAME);
        text.append(" { ");
        text.append("demo: ");
        text.append(self.demo().to_string().as_str());
        text.append(", curr: ");
        text.append(self.curr().to_string().as_str());
        text.append(", next: ");
        text.append(self.next().to_string().as_str());
        let extra_count = self.count_extra_fields();
        if extra_count != 0 {
            text.append(", .. (");
            text.append(decimal_string(extra_count).as_str());
            text.append(" fields)");
        }
        text.append(" }");
        text
    }

    /// All the bytes of the record in hexadecimal.
    pub fn lower_hex(&self, alternate: bool) -> (text: String)
        ensures
            text@ == lower_hex_of(self@, alternate),
    {
        lower_hex_string(self.as_slice(), alternate)
    }

    /// The record as text for debugging: its name and all its bytes in
    /// hexadecimal.
    pub fn debug_string(&self) -> (text: String)
        ensures
            text@ == named_hex("DemoData"@, self@),
    {
        named_hex_string(Self::NAME, self.as_slice())
    }
}

} // verus!
