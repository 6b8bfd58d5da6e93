//! Colours, and the text they are written in.
use crate::single::{
    doublings, halvings, law_exponent_normalises, law_proportion_is_rounded_to_unit_interval,
    law_rounding_is_nearest, lemma_doublings_bound, lemma_doublings_monotone, significand, Single,
};
use vstd::arithmetic::power2::{lemma2_to64, lemma_pow2_pos, pow2};
use vstd::prelude::*;
use vstd::string::*;

verus! {

/// A colour, with or without an alpha channel. Each channel is a single-precision number.
#[derive(Clone, Copy, Debug)]
pub enum ColorValue {
    ColorRgb([Single; 3]),
    ColorRgba([Single; 4]),
}

/// Why a text is no colour.
#[derive(Clone, Copy, Debug, PartialEq, Eq, Structural)]
pub enum ColorError {
    /// A channel is not written in hexadecimal.
    InvalidDigit,
    /// There are neither six nor eight digits.
    WrongLength,
}

impl ColorValue {
    /// The four channels; a colour without alpha is opaque.
    pub open spec fn rgba(self) -> Seq<Single> {
        match self {
            ColorValue::ColorRgb(c) => c@.push(crate::single::single(crate::single::ONE_BITS)),
            ColorValue::ColorRgba(c) => c@,
        }
    }

    /// The four channels; a colour without alpha is opaque.
    pub fn into(self) -> (res: [Single; 4])
        ensures
            res@ == self.rgba(),
    {
        match self {
            ColorValue::ColorRgb(c) => [
                c[0],
                c[1],
                c[2],
                Single { bits: crate::single::ONE_BITS },
            ],
            ColorValue::ColorRgba(c) => c,
        }
    }
}

/// The value of a hexadecimal digit of either case.
pub open spec fn hex_digit(b: u8) -> Option<u8> {
    if 0x30 <= b <= 0x39 {
        Some((b - 0x30) as u8)
    } else if 0x61 <= b <= 0x66 {
        Some((b - 0x61 + 10) as u8)
    } else if 0x41 <= b <= 0x46 {
        Some((b - 0x41 + 10) as u8)
    } else {
        None
    }
}

/// The number that two bytes of text write in base 16: two digits, or a plus sign and a digit.
pub open spec fn hex_byte(high: u8, low: u8) -> Option<u8> {
    match (hex_digit(high), hex_digit(low)) {
        (Some(h), Some(l)) => Some((16 * h + l) as u8),
        (None, Some(l)) if high == 0x2b => Some(l),
        _ => None,
    }
}

/// The number that the `k`-th pair of bytes writes.
pub open spec fn hex_pair(text: Seq<u8>, k: int) -> Option<u8> {
    hex_byte(text[2 * k], text[2 * k + 1])
}

/// The channel that a byte stands for: the single-precision number nearest to `byte / 255`.
pub open spec fn channel(byte: u8) -> Single {
    crate::single::single(crate::single::nearest_bits(byte as nat, 255) as u32)
}

/// Whether the first `n` pairs of bytes all write a number.
pub open spec fn pairs_parse(text: Seq<u8>, n: int) -> bool {
    forall|k: int| 0 <= k < n ==> #[trigger] hex_pair(text, k) is Some
}

/// The channel written by the `k`-th pair of bytes.
pub open spec fn pair_channel(text: Seq<u8>, k: int) -> Single {
    channel(hex_pair(text, k)->0)
}

/// The channels written by the first `n` pairs of bytes.
pub open spec fn channels(text: Seq<u8>, n: nat) -> Seq<Single> {
    Seq::new(n, |k: int| pair_channel(text, k))
}

/// Whether `res` is what the digits `text` mean as a colour.
pub open spec fn reads_as(text: Seq<u8>, res: Result<ColorValue, ColorError>) -> bool {
    if text.len() != 6 && text.len() != 8 {
        res == Err::<ColorValue, ColorError>(ColorError::WrongLength)
    } else if !pairs_parse(text, text.len() as int / 2) {
        res == Err::<ColorValue, ColorError>(ColorError::InvalidDigit)
    } else if text.len() == 6 {
        res matches Ok(ColorValue::ColorRgb(c)) && c@ == channels(text, 3)
    } else {
        res matches Ok(ColorValue::ColorRgba(c)) && c@ == channels(text, 4)
    }
}

/// Whether the `k`-th pair of bytes ends inside a character.
pub open spec fn splits_after(text: Seq<u8>, k: int) -> bool {
    2 * k + 2 < text.len() && vstd::utf8::is_continuation_byte(text[2 * k + 2])
}

/// Whether cutting `text` into pairs of bytes, up to the first pair that is no number, cuts a
/// character in two. Such a text has no pairs to read.
pub open spec fn splits_character(text: Seq<u8>) -> bool {
    (text.len() == 6 || text.len() == 8) && exists|k: int|
        0 <= k < text.len() / 2 && pairs_parse(text, k) && #[trigger] splits_after(text, k)
}

/// The digits of an argument: all of it but a leading `#`.
pub open spec fn digits(argument: Seq<u8>) -> Seq<u8> {
    if argument.len() > 0 && argument[0] == 0x23 {
        argument.subrange(1, argument.len() as int)
    } else {
        argument
    }
}

/// The digit that writes a number below 16.
pub open spec fn digit_text(d: u8, upper: bool) -> u8 {
    if d < 10 {
        (0x30 + d) as u8
    } else if upper {
        (0x41 + d - 10) as u8
    } else {
        (0x61 + d - 10) as u8
    }
}

/// The hexadecimal digits that write the bytes of a colour.
pub open spec fn color_text(bytes: Seq<u8>, upper: bool) -> Seq<u8> {
    Seq::new(
        2 * bytes.len(),
        |i: int|
            if i % 2 == 0 {
                digit_text(bytes[i / 2] / 16, upper)
            } else {
                digit_text(bytes[i / 2] % 16, upper)
            },
    )
}

/// Writing a colour in digits of either case, with or without `#`, and reading it gives each
/// byte's channel back. No such text has a character to cut in two.
pub proof fn law_written_color_reads_back(
    bytes: Seq<u8>,
    upper: bool,
    hash: bool,
    res: Result<ColorValue, ColorError>,
)
    requires
        bytes.len() == 3 || bytes.len() == 4,
        reads_as(
            digits(
                if hash {
                    seq![0x23u8] + color_text(bytes, upper)
                } else {
                    color_text(bytes, upper)
                },
            ),
            res,
        ),
    ensures
        bytes.len() == 3 ==> (res matches Ok(ColorValue::ColorRgb(c)) && c@ == bytes.map_values(
            |b: u8| channel(b),
        )),
        bytes.len() == 4 ==> (res matches Ok(ColorValue::ColorRgba(c)) && c@ == bytes.map_values(
            |b: u8| channel(b),
        )),
        !splits_character(color_text(bytes, upper)),
{
    let text = color_text(bytes, upper);
    let argument = if hash {
        seq![0x23u8] + text
    } else {
        text
    };
    assert(digits(argument) =~= text);
    assert forall|k: int| 0 <= k < bytes.len() implies #[trigger] hex_pair(text, k) == Some(
        bytes[k],
    ) by {
        assert(text[2 * k] == digit_text(bytes[k] / 16, upper));
        assert(text[2 * k + 1] == digit_text(bytes[k] % 16, upper));
    }
    assert(channels(text, bytes.len()) =~= bytes.map_values(|b: u8| channel(b)));
    assert(pairs_parse(text, bytes.len() as int));
}

/// A text means one thing: whatever reads it finds the same error, or the same channels.
pub proof fn law_reading_is_unique(
    text: Seq<u8>,
    a: Result<ColorValue, ColorError>,
    b: Result<ColorValue, ColorError>,
)
    requires
        reads_as(text, a),
        reads_as(text, b),
    ensures
        a is Ok <==> b is Ok,
        a matches Err(e) ==> b == Err::<ColorValue, ColorError>(e),
        a matches Ok(x) ==> (b matches Ok(y) && x.rgba() == y.rgba() && (x is ColorRgb <==> y is ColorRgb)),
{
}

/// A leading `#` changes nothing about the colour that digits write.
pub proof fn law_hash_is_optional(text: Seq<u8>)
    requires
        text.len() > 0 ==> text[0] != 0x23,
    ensures
        digits(seq![0x23u8] + text) == digits(text),
{
    assert(digits(seq![0x23u8] + text) =~= text);
}

/// Every channel that digits can write lies between 0.0 and 1.0, and a larger byte never gives a
/// smaller channel.
pub proof fn law_channels_are_proportions(low: u8, high: u8)
    requires
        low <= high,
    ensures
        crate::single::ZERO_BITS <= channel(low).bits <= channel(high).bits
            <= crate::single::ONE_BITS,
{
    crate::single::law_proportion_is_rounded_to_unit_interval(low as u32, 255);
    crate::single::law_proportion_is_rounded_to_unit_interval(high as u32, 255);
    crate::single::law_rounding_keeps_order(low as u32, high as u32, 255);
}

/// The significand of a byte's channel, before rounding, lies at least 1/255 below 2 and differs
/// from its rounding by at most one half.
proof fn lemma_channel_significand(byte: u8)
    requires
        byte > 0,
    ensures
        ({
            let n = byte as nat * pow2(doublings(byte as nat, 255));
            let s = significand(byte as nat, 255);
            &&& halvings(byte as nat, 255) == 0
            &&& 255 <= n <= 509
            &&& 2 * (s * 255 - n * 0x80_0000) <= 255
            &&& 2 * (n * 0x80_0000 - s * 255) <= 255
        }),
{
    lemma2_to64();
    law_exponent_normalises(byte as nat, 255);
    assert(halvings(byte as nat, 255) == 0);
    law_rounding_is_nearest(byte as nat * pow2(doublings(byte as nat, 255)) * 0x80_0000, 255);
}

/// Different bytes give different channels, in the order of the bytes.
pub proof fn law_channels_tell_bytes_apart(low: u8, high: u8)
    requires
        low < high,
    ensures
        channel(low).bits < channel(high).bits,
{
    law_proportion_is_rounded_to_unit_interval(low as u32, 255);
    law_proportion_is_rounded_to_unit_interval(high as u32, 255);
    lemma_channel_significand(high);
    let (a, b) = (low as nat, high as nat);
    lemma_doublings_bound(b, 255);
    if low > 0 {
        lemma_channel_significand(low);
        lemma_doublings_monotone(a, b, 255);
        let p = pow2(doublings(b, 255));
        if doublings(a, 255) == doublings(b, 255) {
            assert(a * p + p <= b * p) by (nonlinear_arith)
                requires
                    a + 1 <= b,
            ;
            lemma_pow2_pos(doublings(b, 255));
        }
    }
}

impl ColorError {
    /// What to tell the user.
    pub open spec fn text(&self) -> Seq<char> {
        match self {
            ColorError::InvalidDigit => "invalid digit found in string"@,
            ColorError::WrongLength => "expected #RRGGBB or #RRGGBBAA"@,
        }
    }

    /// What to tell the user.
    pub fn message(&self) -> (res: String)
        ensures
            res@ == self.text(),
    {
        match self {
            ColorError::InvalidDigit => "invalid digit found in string".to_owned(),
            ColorError::WrongLength => "expected #RRGGBB or #RRGGBBAA".to_owned(),
        }
    }
}

fn read_digit(b: u8) -> (res: Option<u8>)
    ensures
        res == hex_digit(b),
        res matches Some(d) ==> d < 16,
{
    if 0x30 <= b && b <= 0x39 {
        Some(b - 0x30)
    } else if 0x61 <= b && b <= 0x66 {
        Some(b - 0x61 + 10)
    } else if 0x41 <= b && b <= 0x46 {
        Some(b - 0x41 + 10)
    } else {
        None
    }
}

fn read_byte(high: u8, low: u8) -> (res: Option<u8>)
    ensures
        res == hex_byte(high, low),
{
    match (read_digit(high), read_digit(low)) {
        (Some(h), Some(l)) => Some(16 * h + l),
        (None, Some(l)) => if high == 0x2b {
            Some(l)
        } else {
            None
        },
        _ => None,
    }
}

fn read_channel(text: &[u8], k: usize) -> (res: Result<Single, ColorError>)
    requires
        k < 4,
        2 * k + 1 < text@.len(),
    ensures
        match hex_pair(text@, k as int) {
            Some(_) => res == Ok::<Single, ColorError>(pair_channel(text@, k as int)),
            None => res == Err::<Single, ColorError>(ColorError::InvalidDigit),
        },
{
    match read_byte(text[2 * k], text[2 * k + 1]) {
        Some(byte) => Ok(Single::from_ratio(byte as u32, 255)),
        None => Err(ColorError::InvalidDigit),
    }
}

/// The colour that six or eight hexadecimal digits write.
pub fn parse_hex_color(hex: &str) -> (res: Result<ColorValue, ColorError>)
    requires
        !splits_character(hex.spec_bytes()),
    ensures
        reads_as(hex.spec_bytes(), res),
{
    let text = hex.as_bytes();
    let ghost bytes = text@;
    if text.len() != 6 && text.len() != 8 {
        return Err(ColorError::WrongLength);
    }
    let r = match read_channel(text, 0) {
        Ok(r) => r,
        Err(e) => {
            assert(hex_pair(bytes, 0) is None);
            return Err(e);
        },
    };
    let g = match read_channel(text, 1) {
        Ok(g) => g,
        Err(e) => {
            assert(hex_pair(bytes, 1) is None);
            return Err(e);
        },
    };
    let b = match read_channel(text, 2) {
        Ok(b) => b,
        Err(e) => {
            assert(hex_pair(bytes, 2) is None);
            return Err(e);
        },
    };
    if text.len() == 6 {
        let c = [r, g, b];
        assert(c@ =~= channels(bytes, 3));
        return Ok(ColorValue::ColorRgb(c));
    }
    let a = match read_channel(text, 3) {
        Ok(a) => a,
        Err(e) => {
            assert(hex_pair(bytes, 3) is None);
            return Err(e);
        },
    };
    let c = [r, g, b, a];
    assert(c@ =~= channels(bytes, 4));
    Ok(ColorValue::ColorRgba(c))
}

/// A `#` at the start of a text is a character of its own.
proof fn lemma_hash_is_a_character(s: &str)
    requires
        s.spec_bytes().len() > 0,
        s.spec_bytes()[0] == 0x23,
    ensures
        vstd::utf8::is_char_boundary(s.spec_bytes(), 1),
{
    let bytes = s.spec_bytes();
    vstd::utf8::encode_utf8_valid_utf8(s@);
    assert(vstd::utf8::length_of_first_scalar(bytes) == 1);
    reveal_with_fuel(vstd::utf8::is_char_boundary, 2);
}

/// The colour that an argument writes: six or eight hexadecimal digits, with or without a `#`
/// before them.
pub fn parse_uniform_value(s: &str) -> (res: Result<ColorValue, ColorError>)
    requires
        !splits_character(digits(s.spec_bytes())),
    ensures
        reads_as(digits(s.spec_bytes()), res),
{
    let text = s.as_bytes();
    if text.len() > 0 && text[0] == 0x23 {
        proof {
            lemma_hash_is_a_character(s);
        }
        let (_, hex) = s.split_at(1);
        return parse_hex_color(hex);
    }
    parse_hex_color(s)
}

/// Whether an argument has a character that reading its digits in pairs would cut in two.
pub fn value_splits_character(s: &str) -> (res: bool)
    ensures
        res == splits_character(digits(s.spec_bytes())),
{
    let text = s.as_bytes();
    let start: usize = if text.len() > 0 && text[0] == 0x23 {
        1
    } else {
        0
    };
    let ghost bytes = digits(s.spec_bytes());
    let n: usize = text.len() - start;
    if n != 6 && n != 8 {
        return false;
    }
    let mut k: usize = 0;
    while k < n / 2
        invariant
            start <= 1,
            n == 6 || n == 8,
            text@.len() == start + n,
            bytes == digits(s.spec_bytes()),
            bytes.len() == n,
            forall|i: int| 0 <= i < n ==> bytes[i] == text@[start + i],
            k <= n / 2,
            pairs_parse(bytes, k as int),
            forall|j: int| 0 <= j < k ==> !#[trigger] splits_after(bytes, j),
        decreases n / 2 - k,
    {
        let end: usize = 2 * k + 2;
        if end < n && 0x80 <= text[start + end] && text[start + end] <= 0xbf {
            assert(splits_after(bytes, k as int));
            return true;
        }
        assert(!splits_after(bytes, k as int));
        if read_byte(text[start + 2 * k], text[start + 2 * k + 1]).is_none() {
            assert(hex_pair(bytes, k as int) is None);
            return false;
        }
        assert(hex_pair(bytes, k as int) is Some);
        k = k + 1;
    }
    false
}

/// Whether `channels` are the four channels of a colour: its own, in their order, and full alpha
/// where it has none.
pub open spec fn shows(value: ColorValue, channels: Seq<Single>) -> bool {
    &&& channels.len() == 4
    &&& match value {
        ColorValue::ColorRgb(c) => {
            &&& channels[0] == c@[0] && channels[1] == c@[1] && channels[2] == c@[2]
            &&& channels[3].bits == 0x3f80_0000
        },
        ColorValue::ColorRgba(c) => {
            &&& channels[0] == c@[0] && channels[1] == c@[1] && channels[2] == c@[2]
            &&& channels[3] == c@[3]
        },
    }
}

/// A colour keeps its channels when it is made into four, and becomes opaque where it has no
/// alpha.
pub proof fn law_colors_keep_their_channels(value: ColorValue, res: [Single; 4])
    requires
        call_ensures(ColorValue::into, (value,), res),
    ensures
        shows(value, res@),
        shows(value, value.rgba()),
{
}

/// Whether a character, by its byte, is the digit of either case that writes a number below 16.
pub open spec fn writes_digit(character: u8, d: u8) -> bool {
    d < 16 && (character == digit_text(d, false) || character == digit_text(d, true))
}

/// Whether two characters write a byte in base 16: its upper half and its lower half, or, for a
/// byte that has no upper half, a plus sign and its lower half.
pub open spec fn pair_writes(high: u8, low: u8, byte: u8) -> bool {
    &&& writes_digit(high, byte / 16) || (high == 0x2b && byte < 16)
    &&& writes_digit(low, byte % 16)
}

/// Whether `text` writes the bytes, two characters for each.
pub open spec fn writes(text: Seq<u8>, bytes: Seq<u8>) -> bool {
    &&& text.len() == 2 * bytes.len()
    &&& forall|k: int|
        0 <= k < bytes.len() ==> pair_writes(text[2 * k], text[2 * k + 1], #[trigger] bytes[k])
}

/// Whether two characters write no byte at all.
pub open spec fn writes_nothing(high: u8, low: u8) -> bool {
    forall|byte: u8| !#[trigger] pair_writes(high, low, byte)
}

/// Whether an argument is the text itself, or a `#` and the text.
pub open spec fn argument_of(argument: Seq<u8>, text: Seq<u8>) -> bool {
    ||| argument == text && !(text.len() > 0 && text[0] == 0x23)
    ||| argument == seq![0x23u8] + text
}

/// Whether `res` is the colour whose channels are the numbers nearest to the bytes' proportions
/// of 255: one with alpha where there are four.
pub open spec fn is_color_of(bytes: Seq<u8>, res: Result<ColorValue, ColorError>) -> bool {
    match res {
        Ok(ColorValue::ColorRgb(c)) => bytes.len() == 3 && forall|k: int|
            0 <= k < 3 ==> crate::single::is_nearest(
                (#[trigger] c@[k]).bits,
                bytes[k] as nat,
                255,
            ),
        Ok(ColorValue::ColorRgba(c)) => bytes.len() == 4 && forall|k: int|
            0 <= k < 4 ==> crate::single::is_nearest(
                (#[trigger] c@[k]).bits,
                bytes[k] as nat,
                255,
            ),
        Err(_) => false,
    }
}

/// Two characters are read as the byte that they write, and as none where they write none.
proof fn lemma_pairs_are_read_as_written(high: u8, low: u8)
    ensures
        forall|byte: u8| #[trigger]
            pair_writes(high, low, byte) ==> hex_byte(high, low) == Some(byte),
        writes_nothing(high, low) <==> hex_byte(high, low) is None,
{
    if hex_byte(high, low) is Some {
        assert(pair_writes(high, low, hex_byte(high, low)->0));
    }
}

/// The channel of a byte is the number nearest to its proportion of 255.
proof fn lemma_channel_is_nearest(byte: u8)
    ensures
        crate::single::is_nearest(channel(byte).bits, byte as nat, 255),
{
    crate::single::lemma_nearest_bits_are_nearest(byte as u32, 255);
}

/// What digits mean as a colour, in both directions.
pub(crate) proof fn lemma_reading(text: Seq<u8>, res: Result<ColorValue, ColorError>)
    requires
        reads_as(text, res),
    ensures
        forall|bytes: Seq<u8>|
            (bytes.len() == 3 || bytes.len() == 4) && #[trigger] writes(text, bytes) ==> is_color_of(
                bytes,
                res,
            ),
        res == Err::<ColorValue, ColorError>(ColorError::WrongLength) <==> text.len() != 6
            && text.len() != 8,
        text.len() == 6 || text.len() == 8 ==> (res == Err::<ColorValue, ColorError>(
            ColorError::InvalidDigit,
        ) <==> exists|k: int|
            0 <= k < text.len() / 2 && #[trigger] writes_nothing(text[2 * k], text[2 * k + 1])),
{
    let n = text.len() as int / 2;
    assert forall|k: int| 0 <= k < n implies #[trigger] hex_pair(text, k) is None
        <==> writes_nothing(text[2 * k], text[2 * k + 1]) by {
        lemma_pairs_are_read_as_written(text[2 * k], text[2 * k + 1]);
    }
    if text.len() == 6 || text.len() == 8 {
        if !pairs_parse(text, n) {
            let k = choose|k: int| 0 <= k < n && #[trigger] hex_pair(text, k) is None;
            assert(writes_nothing(text[2 * k], text[2 * k + 1]));
        } else {
            assert forall|k: int| 0 <= k < text.len() / 2 implies !#[trigger] writes_nothing(
                text[2 * k],
                text[2 * k + 1],
            ) by {
                assert(hex_pair(text, k) is Some);
            }
        }
    }
    assert forall|bytes: Seq<u8>|
        (bytes.len() == 3 || bytes.len() == 4) && #[trigger] writes(text, bytes) implies is_color_of(
        bytes,
        res,
    ) by {
        assert forall|k: int| 0 <= k < bytes.len() implies #[trigger] hex_pair(text, k) == Some(
            bytes[k],
        ) by {
            lemma_pairs_are_read_as_written(text[2 * k], text[2 * k + 1]);
            assert(pair_writes(text[2 * k], text[2 * k + 1], bytes[k]));
        }
        assert(pairs_parse(text, n));
        assert forall|k: int| 0 <= k < bytes.len() implies crate::single::is_nearest(
            (#[trigger] channels(text, bytes.len())[k]).bits,
            bytes[k] as nat,
            255,
        ) by {
            assert(hex_pair(text, k) == Some(bytes[k]));
            lemma_channel_is_nearest(bytes[k]);
        }
    }
}

/// An argument that writes three or four bytes, in digits of any case, with or without a `#`, is
/// the colour of these bytes, each channel the number nearest to its proportion of 255.
pub proof fn law_argument_means_the_bytes_it_writes(
    s: &str,
    text: Seq<u8>,
    bytes: Seq<u8>,
    res: Result<ColorValue, ColorError>,
)
    requires
        call_ensures(parse_uniform_value, (s,), res),
        argument_of(s.spec_bytes(), text),
        bytes.len() == 3 || bytes.len() == 4,
        writes(text, bytes),
    ensures
        is_color_of(bytes, res),
{
    assert(digits(s.spec_bytes()) =~= text);
    lemma_reading(text, res);
}

/// An argument that has neither six nor eight characters besides its `#`, and no other, is
/// refused for its length; one that has, but has two characters in a row that write no byte, and
/// no other, is refused for its digits.
pub proof fn law_argument_is_refused_for_what_is_wrong(
    s: &str,
    text: Seq<u8>,
    res: Result<ColorValue, ColorError>,
)
    requires
        call_ensures(parse_uniform_value, (s,), res),
        argument_of(s.spec_bytes(), text),
    ensures
        res == Err::<ColorValue, ColorError>(ColorError::WrongLength) <==> text.len() != 6
            && text.len() != 8,
        text.len() == 6 || text.len() == 8 ==> (res == Err::<ColorValue, ColorError>(
            ColorError::InvalidDigit,
        ) <==> exists|k: int|
            0 <= k < text.len() / 2 && #[trigger] writes_nothing(text[2 * k], text[2 * k + 1])),
{
    assert(digits(s.spec_bytes()) =~= text);
    lemma_reading(text, res);
}

/// Bare digits mean what they mean in an argument.
pub proof fn law_digits_mean_the_bytes_they_write(hex: &str, res: Result<ColorValue, ColorError>)
    requires
        call_ensures(parse_hex_color, (hex,), res),
    ensures
        forall|bytes: Seq<u8>|
            (bytes.len() == 3 || bytes.len() == 4) && #[trigger] writes(hex.spec_bytes(), bytes)
                ==> is_color_of(bytes, res),
        res == Err::<ColorValue, ColorError>(ColorError::WrongLength) <==> hex.spec_bytes().len()
            != 6 && hex.spec_bytes().len() != 8,
        hex.spec_bytes().len() == 6 || hex.spec_bytes().len() == 8 ==> (res == Err::<
            ColorValue,
            ColorError,
        >(ColorError::InvalidDigit) <==> exists|k: int|
            0 <= k < hex.spec_bytes().len() / 2 && #[trigger] writes_nothing(
                hex.spec_bytes()[2 * k],
                hex.spec_bytes()[2 * k + 1],
            )),
{
    lemma_reading(hex.spec_bytes(), res);
}

/// A character is cut in two exactly where, in a text of six or eight bytes, some pair ends
/// before a byte that continues a character, and every pair before it writes a byte. In
/// particular no argument made of single-byte characters is affected.
pub proof fn law_characters_are_cut_only_between_pairs(s: &str, text: Seq<u8>, res: bool)
    requires
        call_ensures(value_splits_character, (s,), res),
        argument_of(s.spec_bytes(), text),
    ensures
        res <==> (text.len() == 6 || text.len() == 8) && exists|k: int|
            0 <= k && 2 * k + 2 < text.len() && 0x80 <= #[trigger] text[2 * k + 2] <= 0xbf && forall|
                j: int,
            |
                0 <= j < k ==> !#[trigger] writes_nothing(text[2 * j], text[2 * j + 1]),
        (forall|i: int| 0 <= i < text.len() ==> #[trigger] text[i] < 0x80) ==> !res,
{
    assert(digits(s.spec_bytes()) =~= text);
    assert forall|k: int| 0 <= k < text.len() / 2 implies #[trigger] hex_pair(text, k) is None
        <==> writes_nothing(text[2 * k], text[2 * k + 1]) by {
        lemma_pairs_are_read_as_written(text[2 * k], text[2 * k + 1]);
    }
    if splits_character(text) {
        let k = choose|k: int|
            0 <= k < text.len() / 2 && pairs_parse(text, k) && #[trigger] splits_after(text, k);
        assert(0x80 <= text[2 * k + 2] <= 0xbf);
        assert forall|j: int| 0 <= j < k implies !#[trigger] writes_nothing(
            text[2 * j],
            text[2 * j + 1],
        ) by {
            assert(hex_pair(text, j) is Some);
        }
    }
    if text.len() == 6 || text.len() == 8 {
        assert forall|k: int|
            0 <= k && 2 * k + 2 < text.len() && 0x80 <= #[trigger] text[2 * k + 2] <= 0xbf && (
            forall|j: int|
                0 <= j < k ==> !#[trigger] writes_nothing(text[2 * j], text[2 * j + 1])) implies splits_character(text) by {
            assert forall|j: int| 0 <= j < k implies #[trigger] hex_pair(text, j) is Some by {
                assert(!writes_nothing(text[2 * j], text[2 * j + 1]));
            }
            assert(splits_after(text, k));
        }
    }
}

} // verus!
