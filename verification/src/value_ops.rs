//! Values as strings, integers and byte arrays: the coercions that commands
//! share.

use vstd::prelude::*;
use vstd::string::StringSliceAdditionalSpecFns;
use vstd::utf8::{decode_utf8, encode_scalar, encode_utf8, valid_utf8};

use crate::bytes::{append, append_text, copied, lit, text, views};
use crate::code::{Code, Numeral};
use crate::errors::raised_with;
use crate::number::{decimal, decimal_usize, utf8_str};
use crate::state::Interp;

verus! {

/// One character for every byte: the byte's number is the character's.
pub open spec fn byte_chars(b: Seq<u8>) -> Seq<char> {
    Seq::new(b.len(), |i: int| (b[i] as u32) as char)
}

/// The string that `b` stands for: what it encodes where it is UTF-8, else its
/// bytes as characters.
pub open spec fn shown(b: Seq<u8>) -> Seq<char> {
    if valid_utf8(b) {
        decode_utf8(b)
    } else {
        byte_chars(b)
    }
}

/// Appending a character appends its encoding.
proof fn encode_push(s: Seq<char>, c: char)
    ensures
        encode_utf8(s.push(c)) == encode_utf8(s) + encode_scalar(c as u32),
    decreases s.len(),
{
    let t = s.push(c);
    if s.len() == 0 {
        assert(t.drop_first() =~= Seq::<char>::empty());
        assert(encode_utf8(t.drop_first()) =~= Seq::<u8>::empty());
        assert(encode_utf8(t) =~= encode_utf8(s) + encode_scalar(c as u32));
    } else {
        encode_push(s.drop_first(), c);
        assert(t.drop_first() =~= s.drop_first().push(c));
        assert(encode_utf8(t) =~= encode_utf8(s) + encode_scalar(c as u32));
    }
}

/// The string view of `bytes`.
pub fn bytes_to_str(bytes: &[u8]) -> (r: String)
    ensures
        r@ == shown(bytes@),
{
    if let Some(s) = utf8_str(bytes) {
        return s.to_owned();
    }
    let ghost all = byte_chars(bytes@);
    let mut out: Vec<u8> = Vec::new();
    let mut i: usize = 0;
    assert(out@ =~= encode_utf8(all.take(0)));
    while i < bytes.len()
        invariant
            i <= bytes@.len(),
            all == byte_chars(bytes@),
            out@ == encode_utf8(all.take(i as int)),
        decreases bytes@.len() - i,
    {
        let b = bytes[i];
        proof {
            let c = (b as u32) as char;
            assert(c as u32 == b as u32);
            assert(all.take(i + 1) =~= all.take(i as int).push(c));
            encode_push(all.take(i as int), c);
        }
        let ghost before = out@;
        if b < 0x80 {
            assert(((b as u32) & 0x7F) as u8 == b) by (bit_vector)
                requires
                    b < 0x80,
            ;
            out.push(b);
            assert(out@ =~= before + encode_scalar(b as u32));
        } else {
            let n: u32 = b as u32;
            out.push(0xC0 | ((n >> 6) & 0x1F) as u8);
            out.push(0x80 | (n & 0x3F) as u8);
            assert(out@ =~= before + encode_scalar(b as u32));
        }
        i = i + 1;
    }
    assert(all.take(i as int) =~= all);
    proof {
        vstd::utf8::encode_utf8_valid_utf8(all);
        vstd::utf8::encode_utf8_decode_utf8(all);
    }
    match utf8_str(&out) {
        Some(s) => s.to_owned(),
        None => String::new(),
    }
}

/// The bytes of a string: its UTF-8 encoding, whatever its characters.
pub fn str_to_bytes(s: &str) -> (r: Vec<u8>)
    ensures
        r@ == encode_utf8(s@),
{
    copied(s.as_bytes())
}

/// A string survives the way to bytes and back.
pub proof fn strings_round_trip(s: Seq<char>)
    ensures
        shown(encode_utf8(s)) == s,
{
    vstd::utf8::encode_utf8_valid_utf8(s);
    vstd::utf8::encode_utf8_decode_utf8(s);
}

/// Bytes survive the way to a string and back where they are UTF-8.
pub proof fn text_bytes_round_trip(b: Seq<u8>)
    requires
        valid_utf8(b),
    ensures
        encode_utf8(shown(b)) == b,
{
    vstd::utf8::decode_utf8_encode_utf8(b);
}

/// No character is lost: bytes that are not UTF-8 have one character each.
pub proof fn other_bytes_keep_their_number(b: Seq<u8>, i: int)
    requires
        !valid_utf8(b),
        0 <= i < b.len(),
    ensures
        shown(b).len() == b.len(),
        shown(b)[i] as u32 == b[i],
{
}

/// Why a value has not the wanted form, with the value's text.
#[derive(Debug)]
pub enum ValueError {
    NotInteger(String),
    IntegerOverflow,
    NotBoolean(String),
    NotDouble(String),
}

/// The value as a truth value, by the reading of its text.
pub fn as_bool(reading: Option<bool>, text: &str) -> (r: Result<bool, ValueError>)
    ensures
        match reading {
            Some(b) => r == Ok::<bool, ValueError>(b),
            None => r matches Err(ValueError::NotBoolean(t)) && t@ == text@,
        },
{
    match reading {
        Some(b) => Ok(b),
        None => Err(ValueError::NotBoolean(text.to_owned())),
    }
}

/// The value as an integer, by the reading of its trimmed text.
pub fn as_int(reading: Option<Numeral>, text: &str) -> (r: Result<i64, ValueError>)
    ensures
        match reading {
            Some(Numeral::Int(n)) => r == Ok::<i64, ValueError>(n),
            _ => r matches Err(ValueError::NotInteger(t)) && t@ == text@,
        },
{
    match reading {
        Some(Numeral::Int(n)) => Ok(n),
        _ => Err(ValueError::NotInteger(text.to_owned())),
    }
}

/// The value as the length limit of a string comparison. A negative number is
/// no limit, and one that no wide integer holds is out of range.
pub fn string_compare_length(reading: Option<Numeral>, text: &str) -> (r: Result<
    Option<usize>,
    ValueError,
>)
    ensures
        match reading {
            Some(Numeral::Int(n)) => r == Ok::<Option<usize>, ValueError>(
                if 0 <= n <= usize::MAX {
                    Some(n as usize)
                } else {
                    None
                },
            ),
            Some(Numeral::Big) => r == Err::<Option<usize>, ValueError>(
                ValueError::IntegerOverflow,
            ),
            _ => r matches Err(ValueError::NotInteger(t)) && t@ == text@,
        },
{
    match reading {
        Some(Numeral::Int(n)) => if n < 0 || n as u64 > usize::MAX as u64 {
            Ok(None)
        } else {
            Ok(Some(n as usize))
        },
        Some(Numeral::Big) => Err(ValueError::IntegerOverflow),
        _ => Err(ValueError::NotInteger(text.to_owned())),
    }
}

/// A value that is to be added.
pub struct Addend {
    pub is_integer: bool,
    pub text: String,
}

/// The sum of two values. The current value comes first, and none stands for
/// zero; both must be integers. `sum` is what adding them gave, which no two
/// integers are denied for their size.
pub fn int_add(a: &Option<Addend>, b: &Addend, sum: Option<Vec<u8>>) -> (r: Result<
    Vec<u8>,
    ValueError,
>)
    ensures
        match *a {
            Some(x) if !x.is_integer => r matches Err(ValueError::NotInteger(t)) && t@ == x.text@,
            _ => if !b.is_integer {
                r matches Err(ValueError::NotInteger(t)) && t@ == b.text@
            } else {
                match sum {
                    Some(s) => r == Ok::<Vec<u8>, ValueError>(s),
                    None => r == Err::<Vec<u8>, ValueError>(ValueError::IntegerOverflow),
                }
            },
        },
{
    if let Some(x) = a {
        if !x.is_integer {
            return Err(ValueError::NotInteger(x.text.as_str().to_owned()));
        }
    }
    if !b.is_integer {
        return Err(ValueError::NotInteger(b.text.as_str().to_owned()));
    }
    match sum {
        Some(s) => Ok(s),
        None => Err(ValueError::IntegerOverflow),
    }
}

/// Appends to a string in place, which only a plain string that nothing else
/// holds allows. Returns whether it did.
pub fn try_append_bytes_in_place(
    is_plain_string: bool,
    is_shared: bool,
    value: &mut Vec<u8>,
    bytes: &[u8],
) -> (r: bool)
    ensures
        r == (is_plain_string && !is_shared),
        final(value)@ == if r {
            old(value)@ + bytes@
        } else {
            old(value)@
        },
{
    if is_plain_string && !is_shared {
        append(value, bytes);
        true
    } else {
        false
    }
}

/// Appends to a list in place, which only a list that nothing else holds
/// allows. `elements` is `None` where the value is no list. Returns whether it
/// did.
pub fn try_list_append_in_place(
    is_shared: bool,
    elements: &mut Option<Vec<Vec<u8>>>,
    item: &[u8],
) -> (r: bool)
    ensures
        r == (!is_shared && *old(elements) is Some),
        !r ==> *final(elements) == *old(elements),
        r ==> *final(elements) is Some && views(final(elements)->0@) == views(
            old(elements)->0@,
        ).push(item@),
{
    if is_shared {
        return false;
    }
    match elements {
        None => false,
        Some(es) => {
            let ghost before = views(es@);
            es.push(copied(item));
            assert(views(es@) =~= before.push(item@));
            true
        },
    }
}

/// The hexadecimal digits of `n`, lower case, with no leading zero.
pub open spec fn hex_of(n: nat) -> Seq<u8>
    decreases n,
{
    if n < 16 {
        seq![hex_digit(n)]
    } else {
        hex_of(n / 16).push(hex_digit(n % 16))
    }
}

/// One hexadecimal digit.
pub open spec fn hex_digit(n: nat) -> u8 {
    if n < 10 {
        (48 + n) as u8
    } else {
        (87 + n) as u8
    }
}

fn hex_u32(n: u32) -> (r: Vec<u8>)
    ensures
        r@ == hex_of(n as nat),
    decreases n,
{
    let d: u8 = (n % 16) as u8;
    let digit: u8 = if d < 10 {
        48 + d
    } else {
        87 + d
    };
    if n < 16 {
        let mut out: Vec<u8> = Vec::new();
        out.push(digit);
        assert(out@ =~= hex_of(n as nat));
        out
    } else {
        let mut out = hex_u32(n / 16);
        out.push(digit);
        out
    }
}

/// A character that no byte can stand for, and where it is.
#[derive(Debug, Clone, Copy, PartialEq, Eq, Structural)]
pub struct WideCharacter {
    pub byte_offset: usize,
    pub code_point: u32,
}

/// The message for a string that is no byte string.
pub open spec fn not_bytes(w: WideCharacter) -> Seq<u8> {
    text("expected code point values below 0xff but value at byte offset ") + decimal(
        w.byte_offset as int,
    ) + text(" was 0x") + hex_of(w.code_point as nat)
}

impl Interp {
    /// The bytes that a `binary` command sees in a value, by what converting the
    /// value gave.
    pub fn binary_bytes(&mut self, converted: Result<Vec<u8>, WideCharacter>) -> (r: Result<
        Vec<u8>,
        Code,
    >)
        ensures
            match converted {
                Ok(b) => r == Ok::<Vec<u8>, Code>(b) && *final(self) == *old(self),
                Err(w) => r == Err::<Vec<u8>, Code>(Code::Error) && raised_with(
                    *old(self),
                    *final(self),
                    not_bytes(w),
                    text("TCL VALUE BYTES"),
                ),
            },
    {
        match converted {
            Ok(b) => Ok(b),
            Err(w) => {
                let mut msg = lit(
                    "expected code point values below 0xff but value at byte offset ",
                );
                append(&mut msg, &decimal_usize(w.byte_offset));
                append_text(&mut msg, " was 0x");
                append(&mut msg, &hex_u32(w.code_point));
                Err(self.error_with_code(&msg, "TCL VALUE BYTES".as_bytes()))
            },
        }
    }
}

/// A number is spelled in hexadecimal with its last digit last, in lower case.
pub proof fn the_last_hex_digit_comes_last(n: nat, d: nat)
    requires
        d < 16,
    ensures
        d < 10 ==> hex_of(d) == seq![(48 + d) as u8],
        d >= 10 ==> hex_of(d) == seq![(97 + (d - 10)) as u8],
        n > 0 ==> hex_of(16 * n + d) == hex_of(n) + hex_of(d),
{
    if n > 0 {
        assert((16 * n + d) / 16 == n);
        assert((16 * n + d) % 16 == d);
        assert(hex_of(n).push(hex_digit(d)) =~= hex_of(n) + hex_of(d));
    }
}

/// What is said of a string that is no byte string: where the first character
/// stands that no byte has, and its number.
pub proof fn a_wide_character_is_named(w: WideCharacter)
    ensures
        not_bytes(w) == text("expected code point values below 0xff but value at byte offset ")
            + decimal(w.byte_offset as int) + text(" was 0x") + hex_of(w.code_point as nat),
{
}

} // verus!
