use vstd::prelude::*;
use vstd::string::StringSliceAdditionalSpecFns;

verus! {

/// A colour of four 8-bit channels.
#[derive(Debug, Clone, Copy, PartialEq, Eq, Structural)]
pub struct Rgba8 {
    pub r: u8,
    pub g: u8,
    pub b: u8,
    pub a: u8,
}

/// `text` without its leading `#` signs.
pub open spec fn without_hashes(text: Seq<u8>) -> Seq<u8>
    decreases text.len(),
{
    if text.len() > 0 && text[0] == 0x23 {
        without_hashes(text.drop_first())
    } else {
        text
    }
}

/// The value of a hexadecimal digit, upper or lower case.
pub open spec fn hex_digit(digit: u8) -> Option<u8> {
    if 0x30 <= digit <= 0x39 {
        Some((digit - 0x30) as u8)
    } else if 0x61 <= digit <= 0x66 {
        Some((digit - 0x61 + 10) as u8)
    } else if 0x41 <= digit <= 0x46 {
        Some((digit - 0x41 + 10) as u8)
    } else {
        None
    }
}

/// The value of a channel written in two characters: two hexadecimal
/// digits, or a plus sign and one digit.
pub open spec fn hex_channel(first: u8, second: u8) -> Option<u8> {
    match (hex_digit(first), hex_digit(second)) {
        (Some(high), Some(low)) => Some((16 * high + low) as u8),
        (None, Some(low)) if first == 0x2b => Some(low),
        _ => None,
    }
}

/// The colour that `text` spells: after any leading `#` signs, six
/// characters give red, green and blue with full alpha, eight give alpha
/// too. Anything else spells no colour.
pub open spec fn hex_color(text: Seq<u8>) -> Option<Rgba8> {
    let digits = without_hashes(text);
    if digits.len() == 6 || digits.len() == 8 {
        let a = if digits.len() == 8 {
            hex_channel(digits[6], digits[7])
        } else {
            Some(0xffu8)
        };
        match (
            hex_channel(digits[0], digits[1]),
            hex_channel(digits[2], digits[3]),
            hex_channel(digits[4], digits[5]),
            a,
        ) {
            (Some(r), Some(g), Some(b), Some(a)) => Some(Rgba8 { r, g, b, a }),
            _ => None,
        }
    } else {
        None
    }
}

fn digit_value(digit: u8) -> (r: Option<u8>)
    ensures
        r == hex_digit(digit),
{
    if 0x30 <= digit && digit <= 0x39 {
        Some(digit - 0x30)
    } else if 0x61 <= digit && digit <= 0x66 {
        Some(digit - 0x61 + 10)
    } else if 0x41 <= digit && digit <= 0x46 {
        Some(digit - 0x41 + 10)
    } else {
        None
    }
}

fn channel_value(first: u8, second: u8) -> (r: Option<u8>)
    ensures
        r == hex_channel(first, second),
{
    match digit_value(second) {
        Some(low) => match digit_value(first) {
            Some(high) => Some(16 * high + low),
            None => if first == 0x2b {
                Some(low)
            } else {
                None
            },
        },
        None => None,
    }
}

/// Dropping `count` leading `#` signs one by one does not change what is
/// left once all of them are gone.
proof fn lemma_hashes_dropped(text: Seq<u8>, count: int)
    requires
        0 <= count <= text.len(),
        forall|i: int| 0 <= i < count ==> text[i] == 0x23,
    ensures
        without_hashes(text) == without_hashes(text.subrange(count, text.len() as int)),
    decreases count,
{
    if count == 0 {
        assert(text.subrange(0, text.len() as int) =~= text);
    } else {
        lemma_hashes_dropped(text.drop_first(), count - 1);
        assert(text.drop_first().subrange(count - 1, text.len() - 1) =~= text.subrange(
            count,
            text.len() as int,
        ));
    }
}

/// Reads a colour from hexadecimal notation such as `#ff8000` or
/// `ff800080`.
pub fn from_hex(hex: &str) -> (color: Option<Rgba8>)
    ensures
        color == hex_color(hex.spec_bytes()),
{
    let bytes = hex.as_bytes();
    let len = bytes.len();
    let mut start: usize = 0;
    while start < len && bytes[start] == 0x23
        invariant
            start <= len,
            len == bytes@.len(),
            forall|i: int| 0 <= i < start ==> bytes@[i] == 0x23,
        decreases len - start,
    {
        start += 1;
    }
    let ghost digits = bytes@.subrange(start as int, len as int);
    proof {
        lemma_hashes_dropped(bytes@, start as int);
        assert(without_hashes(digits) == digits);
    }
    let count = len - start;
    if count != 6 && count != 8 {
        return None;
    }
    assert(forall|i: int| 0 <= i < count ==> digits[i] == bytes@[start + i]);
    let r = channel_value(bytes[start], bytes[start + 1]);
    let g = channel_value(bytes[start + 2], bytes[start + 3]);
    let b = channel_value(bytes[start + 4], bytes[start + 5]);
    let a = if count == 8 {
        channel_value(bytes[start + 6], bytes[start + 7])
    } else {
        Some(0xffu8)
    };
    match (r, g, b, a) {
        (Some(r), Some(g), Some(b), Some(a)) => Some(Rgba8 { r, g, b, a }),
        _ => None,
    }
}

} // verus!
