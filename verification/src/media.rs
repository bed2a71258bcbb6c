//! Typed media descriptions produced by the probe stage.
//!
//! The external media-info tool reports every field as a string; the probe
//! stage parses those strings defensively (a field that does not parse
//! counts as 0) and classifies the file from the track counts on the
//! `General` track: video wins over audio, audio over image, and anything
//! else is `Other`.

use vstd::prelude::*;

verus! {

use crate::status::ResourceType;

/// Per-track audio description; durations in whole seconds, bitrate in
/// bits per second, sample rate in Hz.
#[derive(Clone, Copy, Debug, PartialEq, Eq, Structural)]
pub struct AudioData {
    pub duration: u32,
    pub bitrate: u32,
    pub sample_rate: u32,
}

/// Per-track video description; duration in whole seconds, bitrate in
/// bits per second, frame rate in whole frames per second.
#[derive(Clone, Copy, Debug, PartialEq, Eq, Structural)]
pub struct VideoData {
    pub duration: u32,
    pub width: u32,
    pub height: u32,
    pub bitrate: u32,
    pub frame_rate: u32,
}

/// Per-track image description.
#[derive(Clone, Copy, Debug, PartialEq, Eq, Structural)]
pub struct ImageData {
    pub width: u32,
    pub height: u32,
}

/// The media kind of an uploaded file, with its primary track data.
#[derive(Clone, Copy, Debug)]
pub enum FileType {
    Video { video: VideoData, audio: Option<AudioData> },
    Audio { audio: AudioData },
    Image { image: ImageData },
    Other,
}

/// Wire name of each file type.
pub open spec fn file_type_name(t: FileType) -> Seq<char> {
    match t {
        FileType::Video { .. } => "video"@,
        FileType::Audio { .. } => "audio"@,
        FileType::Image { .. } => "image"@,
        FileType::Other => "other"@,
    }
}

impl FileType {
    /// The wire name of this file type.
    pub fn as_str(&self) -> (r: &'static str)
        ensures
            r@ == file_type_name(*self),
    {
        match self {
            FileType::Video { .. } => "video",
            FileType::Audio { .. } => "audio",
            FileType::Image { .. } => "image",
            FileType::Other => "other",
        }
    }

    /// A recognized media type is anything but `Other`.
    pub fn is_media_type(&self) -> (r: bool)
        ensures
            r == !(*self is Other),
    {
        match self {
            FileType::Other => false,
            _ => true,
        }
    }

    /// The resource type this file type resolves to.
    pub fn resource_type(&self) -> (r: ResourceType)
        ensures
            r == spec_resource_type(*self),
    {
        match self {
            FileType::Video { .. } => ResourceType::Video,
            FileType::Audio { .. } => ResourceType::Audio,
            FileType::Image { .. } => ResourceType::Image,
            FileType::Other => ResourceType::Other,
        }
    }
}

/// The resource type each file type resolves to.
pub open spec fn spec_resource_type(t: FileType) -> ResourceType {
    match t {
        FileType::Video { .. } => ResourceType::Video,
        FileType::Audio { .. } => ResourceType::Audio,
        FileType::Image { .. } => ResourceType::Image,
        FileType::Other => ResourceType::Other,
    }
}

// ------------------------------------------------------------------
// Defensive numeric parsing of media-info string fields.
// ------------------------------------------------------------------

/// `c` is an ASCII decimal digit.
pub open spec fn is_digit(c: char) -> bool {
    48 <= c as int <= 57
}

/// Every character of `s` is a decimal digit.
pub open spec fn all_digits(s: Seq<char>) -> bool {
    forall|i: int| 0 <= i < s.len() ==> is_digit(#[trigger] s[i])
}

/// The value of a digit string read in base 10 (0 for the empty string).
pub open spec fn digits_value(s: Seq<char>) -> int
    decreases s.len(),
{
    if s.len() == 0 {
        0
    } else {
        digits_value(s.drop_last()) * 10 + (s.last() as int - 48)
    }
}

/// An unsigned field parses iff it is one or more digits whose value fits;
/// everything else counts as 0.
pub open spec fn parse_u32_spec(s: Seq<char>) -> u32 {
    if s.len() > 0 && all_digits(s) && digits_value(s) <= u32::MAX {
        digits_value(s) as u32
    } else {
        0u32
    }
}

/// Index of the first `.` in `s`, or the length if there is none.
pub open spec fn dot_position(s: Seq<char>) -> int
    decreases s.len(),
{
    if s.len() == 0 {
        0
    } else if s[0] == '.' {
        0
    } else {
        1 + dot_position(s.drop_first())
    }
}

/// A decimal field (`123` or `123.45`) truncates to its integer part,
/// saturating at `u32::MAX`; anything else counts as 0.  The integer part
/// must be non-empty and the fractional part all digits.
pub open spec fn parse_decimal_trunc_spec(s: Seq<char>) -> u32 {
    let p = dot_position(s);
    let int_part = s.take(p);
    let frac_part = if p < s.len() { s.skip(p + 1) } else { Seq::<char>::empty() };
    if int_part.len() > 0 && all_digits(int_part) && all_digits(frac_part) {
        if digits_value(int_part) > u32::MAX {
            u32::MAX
        } else {
            digits_value(int_part) as u32
        }
    } else {
        0u32
    }
}

proof fn lemma_digits_value_nonneg(s: Seq<char>)
    requires
        all_digits(s),
    ensures
        digits_value(s) >= 0,
    decreases s.len(),
{
    if s.len() > 0 {
        assert(all_digits(s.drop_last())) by {
            assert(forall|i: int|
                0 <= i < s.len() - 1 ==> is_digit(#[trigger] s.drop_last()[i]) == is_digit(s[i]));
        }
        lemma_digits_value_nonneg(s.drop_last());
    }
}

proof fn lemma_digits_value_grows(s: Seq<char>, i: int)
    requires
        all_digits(s),
        0 <= i <= s.len(),
    ensures
        digits_value(s.take(i)) <= digits_value(s),
    decreases s.len() - i,
{
    if i < s.len() {
        lemma_digits_value_grows(s, i + 1);
        assert(s.take(i + 1).drop_last() =~= s.take(i));
        assert(all_digits(s.take(i))) by {
            assert(forall|j: int|
                0 <= j < i ==> is_digit(#[trigger] s.take(i)[j]) == is_digit(s[j]));
        }
        lemma_digits_value_nonneg(s.take(i));
        assert(digits_value(s.take(i + 1)) == digits_value(s.take(i)) * 10 + (s[i] as int - 48));
    } else {
        assert(s.take(i) =~= s);
    }
}

/// Parse an unsigned decimal field, defaulting to 0 on anything that is
/// not a digit string with a value that fits in `u32`.
pub fn parse_u32_field(s: &str) -> (r: u32)
    ensures
        r == parse_u32_spec(s@),
{
    let n = s.unicode_len();
    if n == 0 {
        return 0;
    }
    let mut acc: u64 = 0;
    let mut i: usize = 0;
    while i < n
        invariant
            0 <= i <= n,
            n == s@.len(),
            all_digits(s@.take(i as int)),
            acc == digits_value(s@.take(i as int)),
            acc <= u32::MAX,
        decreases n - i,
    {
        let c = s.get_char(i);
        let cu = c as u32;
        if cu < 48 || cu > 57 {
            assert(!is_digit(s@[i as int]));
            assert(!all_digits(s@));
            return 0;
        }
        assert(s@.take(i as int + 1).drop_last() =~= s@.take(i as int));
        acc = acc * 10 + (cu - 48) as u64;
        i = i + 1;
        if acc > 0xffff_ffff {
            // The value can only grow from here: the rest is either a
            // non-digit (parse failure) or more digits (still too large).
            proof {
                if all_digits(s@) {
                    lemma_digits_value_grows(s@, i as int);
                }
            }
            return 0;
        }
    }
    proof {
        assert(s@.take(n as int) =~= s@);
    }
    acc as u32
}

/// Parse a decimal field such as `29.970`, truncating to the integer part
/// and saturating at `u32::MAX`; 0 on anything else.
pub fn parse_decimal_trunc(s: &str) -> (r: u32)
    ensures
        r == parse_decimal_trunc_spec(s@),
{
    let n = s.unicode_len();
    // Find the first dot.
    let mut p: usize = 0;
    while p < n && s.get_char(p) != '.'
        invariant
            0 <= p <= n,
            n == s@.len(),
            forall|j: int| 0 <= j < p ==> s@[j] != '.',
        decreases n - p,
    {
        p = p + 1;
    }
    proof {
        lemma_dot_position_exact(s@, p as int);
    }
    if p == 0 {
        return 0;
    }
    // Check that the integer part is all digits.
    let ghost int_part = s@.take(p as int);
    let mut i: usize = 0;
    while i < p
        invariant
            0 <= i <= p <= n,
            n == s@.len(),
            p as int == dot_position(s@),
            p >= 1,
            int_part =~= s@.take(p as int),
            all_digits(int_part.take(i as int)),
        decreases p - i,
    {
        let c = s.get_char(i);
        let cu = c as u32;
        if cu < 48 || cu > 57 {
            assert(int_part[i as int] == s@[i as int]);
            assert(!is_digit(int_part[i as int]));
            return 0;
        }
        assert(int_part.take(i as int + 1).drop_last() =~= int_part.take(i as int));
        assert(int_part.take(i as int + 1).last() == s@[i as int]);
        i = i + 1;
    }
    proof {
        assert(int_part.take(p as int) =~= int_part);
    }
    // Check that the fractional part is all digits.
    if p < n {
        let ghost frac_part = s@.skip(p as int + 1);
        let mut j: usize = p + 1;
        while j < n
            invariant
                p + 1 <= j <= n,
                n == s@.len(),
                p < n,
                p as int == dot_position(s@),
                p >= 1,
                all_digits(s@.take(p as int)),
                frac_part =~= s@.skip(p as int + 1),
                all_digits(frac_part.take(j - p - 1)),
            decreases n - j,
        {
            let c = s.get_char(j);
            let cu = c as u32;
            if cu < 48 || cu > 57 {
                assert(frac_part[j - p - 1] == s@[j as int]);
                assert(!is_digit(frac_part[j - p - 1]));
                return 0;
            }
            assert(frac_part.take(j - p) .drop_last() =~= frac_part.take(j - p - 1));
            assert(frac_part.take(j - p).last() == s@[j as int]);
            j = j + 1;
        }
        proof {
            assert(frac_part.take(n - p - 1) =~= frac_part);
        }
    }
    // Accumulate the integer part.
    let mut acc: u64 = 0;
    let mut i2: usize = 0;
    while i2 < p
        invariant
            0 <= i2 <= p <= n,
            n == s@.len(),
            p as int == dot_position(s@),
            p >= 1,
            p < n ==> all_digits(s@.skip(p as int + 1)),
            int_part =~= s@.take(p as int),
            all_digits(int_part),
            acc == digits_value(int_part.take(i2 as int)),
            acc <= u32::MAX,
        decreases p - i2,
    {
        let c = s.get_char(i2);
        let cu = c as u32;
        assert(int_part[i2 as int] == s@[i2 as int]);
        assert(is_digit(int_part[i2 as int]));
        assert(int_part.take(i2 as int + 1).drop_last() =~= int_part.take(i2 as int));
        assert(int_part.take(i2 as int + 1).last() == s@[i2 as int]);
        acc = acc * 10 + (cu - 48) as u64;
        i2 = i2 + 1;
        if acc > 0xffff_ffff {
            proof {
                lemma_digits_value_grows(int_part, i2 as int);
            }
            return u32::MAX;
        }
    }
    proof {
        assert(int_part.take(p as int) =~= int_part);
    }
    acc as u32
}

proof fn lemma_dot_position_exact(s: Seq<char>, p: int)
    requires
        0 <= p <= s.len(),
        forall|j: int| 0 <= j < p ==> s[j] != '.',
        p < s.len() ==> s[p] == '.',
    ensures
        dot_position(s) == p,
    decreases p,
{
    if p == 0 {
        if s.len() > 0 {
            assert(s[0] == '.');
        }
    } else {
        assert(s[0] != '.');
        assert(dot_position(s) == 1 + dot_position(s.drop_first()));
        assert(forall|j: int| 0 <= j < p - 1 ==> #[trigger] s.drop_first()[j] == s[j + 1]);
        lemma_dot_position_exact(s.drop_first(), p - 1);
    }
}

/// A signed track count (`3`, `+3`, `-1`); values that do not parse, or do
/// not fit in `i64`, count as 0.
pub open spec fn parse_count_spec(s: Seq<char>) -> int {
    let digits = if s.len() > 0 && (s[0] == '-' || s[0] == '+') {
        s.drop_first()
    } else {
        s
    };
    let negative = s.len() > 0 && s[0] == '-';
    if digits.len() > 0 && all_digits(digits) && digits_value(digits) <= i64::MAX {
        if negative {
            -digits_value(digits)
        } else {
            digits_value(digits)
        }
    } else {
        0
    }
}

/// Parse a signed track count, defaulting to 0 on failure.
pub fn parse_count(s: &str) -> (r: i64)
    ensures
        r as int == parse_count_spec(s@),
{
    let n = s.unicode_len();
    if n == 0 {
        return 0;
    }
    let first = s.get_char(0);
    let (start, negative): (usize, bool) = if first == '-' {
        (1, true)
    } else if first == '+' {
        (1, false)
    } else {
        (0, false)
    };
    let ghost digits = if s@[0] == '-' || s@[0] == '+' {
        s@.drop_first()
    } else {
        s@
    };
    proof {
        assert(digits =~= s@.subrange(start as int, n as int));
    }
    if start >= n {
        return 0;
    }
    let mut acc: u128 = 0;
    let mut i: usize = start;
    while i < n
        invariant
            start <= i <= n,
            n == s@.len(),
            start < n,
            start == 1 <==> (s@[0] == '-' || s@[0] == '+'),
            start == 0 || start == 1,
            negative <==> s@[0] == '-',
            digits =~= s@.subrange(start as int, n as int),
            all_digits(digits.take(i - start)),
            acc == digits_value(digits.take(i - start)),
            acc <= i64::MAX,
        decreases n - i,
    {
        let c = s.get_char(i);
        let cu = c as u32;
        if cu < 48 || cu > 57 {
            assert(digits[i - start] == s@[i as int]);
            assert(!is_digit(digits[i - start]));
            proof {
                if s@[0] == '-' || s@[0] == '+' {
                    assert(s@.drop_first() =~= s@.subrange(1, n as int));
                }
                assert(s@.subrange(0, n as int) =~= s@);
            }
            return 0;
        }
        assert(digits.take(i - start + 1).drop_last() =~= digits.take(i - start));
        assert(digits.take(i - start + 1).last() == s@[i as int]);
        acc = acc * 10 + (cu - 48) as u128;
        i = i + 1;
        if acc > i64::MAX as u128 {
            proof {
                if all_digits(digits) {
                    lemma_digits_value_grows(digits, i - start);
                }
                if s@[0] == '-' || s@[0] == '+' {
                    assert(s@.drop_first() =~= s@.subrange(1, n as int));
                }
                assert(s@.subrange(0, n as int) =~= s@);
            }
            return 0;
        }
    }
    proof {
        assert(digits.take(n - start) =~= digits);
    }
    if negative {
        -(acc as i64)
    } else {
        acc as i64
    }
}

} // verus!
