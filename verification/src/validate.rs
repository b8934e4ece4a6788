//! Checks on the values of a node's configuration.

use vstd::prelude::*;
use crate::decimal::{
    clip, decimal_millionths, format_millionths, millionths_text, parse_decimal, parse_unsigned,
    unsigned_value,
};
use crate::error::{Failure, PipelineError};
use crate::text::{join, join3, names, same};

verus! {

/// The shortest trim window: a tenth of a second.
pub const MIN_WINDOW: i64 = 100000;

/// The longest trim window: 24 hours.
pub const MAX_WINDOW: i64 = 86400000000;

/// `c` is white space, as Unicode defines it.
pub open spec fn is_whitespace(c: char) -> bool {
    let code = c as u32;
    (0x09 <= code <= 0x0D) || code == 0x20 || code == 0x85 || code == 0xA0 || code == 0x1680 || (
    0x2000 <= code <= 0x200A) || code == 0x2028 || code == 0x2029 || code == 0x202F || code
        == 0x205F || code == 0x3000
}

/// `text` is empty or white space throughout.
pub open spec fn is_blank(text: Seq<char>) -> bool {
    forall|i: int| 0 <= i < text.len() ==> is_whitespace(#[trigger] text[i])
}

/// A list of names as it is shown in a message: each in double quotes,
/// separated by a comma and a blank, the whole in square brackets.
pub open spec fn list_text(items: Seq<Seq<char>>) -> Seq<char> {
    "["@ + items_text(items) + "]"@
}

/// The inside of `list_text`.
pub open spec fn items_text(items: Seq<Seq<char>>) -> Seq<char>
    decreases items.len(),
{
    if items.len() == 0 {
        Seq::<char>::empty()
    } else if items.len() == 1 {
        "\""@ + items[0] + "\""@
    } else {
        items_text(items.drop_last()) + ", "@ + "\""@ + items.last() + "\""@
    }
}

/// The failure for a value out of its range.
pub open spec fn out_of_range(field_name: Seq<char>, value: i64, min: i64, max: i64) -> Failure {
    Failure::InvalidNodeConfig(
        field_name + " must be between "@ + millionths_text(min) + " and "@ + millionths_text(max)
            + ", got "@ + millionths_text(value),
    )
}

/// A trim window from `start` to `end` is in order: it starts at zero or
/// later, is at least `MIN_WINDOW` long and at most `MAX_WINDOW`.
pub open spec fn valid_window(start: i64, end: i64) -> bool {
    0 <= start && start + MIN_WINDOW <= end && end - start <= MAX_WINDOW
}

/// What `validate_time_range` answers.
pub open spec fn window_check(start: i64, end: i64) -> Result<(), Failure> {
    if start < 0 {
        Err(out_of_range("start_time"@, start, 0, i64::MAX))
    } else if end < start + MIN_WINDOW {
        Err(out_of_range("end_time"@, end, clip(start + MIN_WINDOW), i64::MAX))
    } else if end - start > MAX_WINDOW {
        Err(Failure::InvalidNodeConfig("Trim duration cannot exceed 24 hours"@))
    } else {
        Ok(())
    }
}

/// A window passes the check if and only if it is in order.
pub proof fn lemma_window_check(start: i64, end: i64)
    ensures
        window_check(start, end) is Ok <==> valid_window(start, end),
{
}

/// The view of a result without a value.
pub open spec fn verdict(result: Result<(), PipelineError>) -> Result<(), Failure> {
    match result {
        Ok(_) => Ok(()),
        Err(error) => Err(error@),
    }
}

/// What `validate_bitrate` answers: the rate in millionths of a megabit per
/// second, which must be above 0 and at most 200.
pub open spec fn bitrate_check(text: Seq<char>) -> Result<i64, Failure> {
    match decimal_millionths(text) {
        None => Err(Failure::InvalidNodeConfig("Invalid bitrate format"@)),
        Some(rate) => if 0 < rate <= 200000000 {
            Ok(rate)
        } else {
            Err(Failure::InvalidNodeConfig("Bitrate must be between 0.1 and 200 Mbps"@))
        },
    }
}

/// What `validate_crf` answers: a whole number of at most 51.
pub open spec fn crf_check(text: Seq<char>) -> Result<u8, Failure> {
    match unsigned_value(text) {
        Some(value) if value <= 255 => if value <= 51 {
            Ok(value as u8)
        } else {
            Err(Failure::InvalidNodeConfig("CRF must be between 0 and 51"@))
        },
        _ => Err(Failure::InvalidNodeConfig("Invalid CRF format"@)),
    }
}

/// What `validate_resolution` answers: width and height in pixels, from 32 by
/// 32 to 7680 by 4320.
pub open spec fn resolution_check(width: Seq<char>, height: Seq<char>) -> Result<(u32, u32), Failure> {
    match unsigned_value(width) {
        Some(w) if w <= u32::MAX => match unsigned_value(height) {
            Some(h) if h <= u32::MAX => if 32 <= w <= 7680 && 32 <= h <= 4320 {
                Ok((w as u32, h as u32))
            } else {
                Err(Failure::InvalidNodeConfig("Resolution must be between 32x32 and 7680x4320"@))
            },
            _ => Err(Failure::InvalidNodeConfig("Invalid height format"@)),
        },
        _ => Err(Failure::InvalidNodeConfig("Invalid width format"@)),
    }
}

/// What `validate_framerate` answers: the rate in millionths of a frame per
/// second, above 0 and at most 120, or 0 for `original`.
pub open spec fn framerate_check(text: Seq<char>) -> Result<i64, Failure> {
    if text == "original"@ {
        Ok(0)
    } else {
        match decimal_millionths(text) {
            None => Err(Failure::InvalidNodeConfig("Invalid framerate format"@)),
            Some(rate) => if 0 < rate <= 120000000 {
                Ok(rate)
            } else {
                Err(Failure::InvalidNodeConfig("Framerate must be between 0.1 and 120 fps"@))
            },
        }
    }
}

/// What `validate_audio_bitrate` answers: kilobits per second, from 32 to 640.
pub open spec fn audio_bitrate_check(text: Seq<char>) -> Result<u32, Failure> {
    match unsigned_value(text) {
        Some(value) if value <= u32::MAX => if 32 <= value <= 640 {
            Ok(value as u32)
        } else {
            Err(Failure::InvalidNodeConfig("Audio bitrate must be between 32 and 640 kbps"@))
        },
        _ => Err(Failure::InvalidNodeConfig("Invalid audio bitrate format"@)),
    }
}

/// The view of a result whose value is a number or a pair of numbers.
pub open spec fn plain<T>(result: Result<T, PipelineError>) -> Result<T, Failure> {
    match result {
        Ok(value) => Ok(value),
        Err(error) => Err(error@),
    }
}

pub(crate) fn invalid(text: &str) -> (error: PipelineError)
    ensures
        error@ == Failure::InvalidNodeConfig(text@),
{
    PipelineError::InvalidNodeConfig(String::from_str(text))
}

pub(crate) fn whitespace(c: char) -> (white: bool)
    ensures
        white == is_whitespace(c),
{
    let code = c as u32;
    (0x09 <= code && code <= 0x0D) || code == 0x20 || code == 0x85 || code == 0xA0 || code
        == 0x1680 || (0x2000 <= code && code <= 0x200A) || code == 0x2028 || code == 0x2029
        || code == 0x202F || code == 0x205F || code == 0x3000
}

/// Checks on configuration values.
pub struct NodeValidator;

impl NodeValidator {
    /// Accepts `value` if and only if it lies between `min` and `max`, both
    /// included. All three are in millionths.
    pub fn validate_range(value: i64, min: i64, max: i64, field_name: &str) -> (result: Result<
        (),
        PipelineError,
    >)
        ensures
            verdict(result) == if min <= value <= max {
                Ok::<(), Failure>(())
            } else {
                Err(out_of_range(field_name@, value, min, max))
            },
    {
        if value >= min && value <= max {
            Ok(())
        } else {
            Err(Self::range_error(value, min, max, field_name))
        }
    }

    fn range_error(value: i64, min: i64, max: i64, field_name: &str) -> (error: PipelineError)
        ensures
            error@ == out_of_range(field_name@, value, min, max),
    {
        let first = join3(field_name, " must be between ", format_millionths(min).as_str());
        let second = join3(" and ", format_millionths(max).as_str(), ", got ");
        let text = join3(first.as_str(), second.as_str(), format_millionths(value).as_str());
        assert(text@ =~= field_name@ + " must be between "@ + millionths_text(min) + " and "@
            + millionths_text(max) + ", got "@ + millionths_text(value));
        PipelineError::InvalidNodeConfig(text)
    }

    /// Accepts a trim window if and only if it is in order.
    pub fn validate_time_range(start_time: i64, end_time: i64) -> (result: Result<(), PipelineError>)
        ensures
            verdict(result) == window_check(start_time, end_time),
            result is Ok <==> valid_window(start_time, end_time),
    {
        if start_time < 0 {
            return Err(Self::range_error(start_time, 0, i64::MAX, "start_time"));
        }
        let least: i64 = if start_time > i64::MAX - MIN_WINDOW {
            i64::MAX
        } else {
            start_time + MIN_WINDOW
        };
        if start_time > i64::MAX - MIN_WINDOW || end_time < least {
            return Err(Self::range_error(end_time, least, i64::MAX, "end_time"));
        }
        if end_time - start_time > MAX_WINDOW {
            return Err(invalid("Trim duration cannot exceed 24 hours"));
        }
        Ok(())
    }

    /// Accepts `value` if and only if it is not blank.
    pub fn validate_non_empty_string(value: &str, field_name: &str) -> (result: Result<
        (),
        PipelineError,
    >)
        ensures
            verdict(result) == if is_blank(value@) {
                Err::<(), Failure>(Failure::InvalidNodeConfig(field_name@ + " cannot be empty"@))
            } else {
                Ok(())
            },
    {
        let n = value.unicode_len();
        let mut i: usize = 0;
        while i < n
            invariant
                n == value@.len(),
                i <= n,
                forall|k: int| 0 <= k < i ==> is_whitespace(#[trigger] value@[k]),
            decreases n - i,
        {
            if !whitespace(value.get_char(i)) {
                return Ok(());
            }
            i = i + 1;
        }
        Err(PipelineError::InvalidNodeConfig(join(field_name, " cannot be empty")))
    }

    /// The names of `allowed` as they are shown in a message.
    fn show_list(allowed: &[&str]) -> (text: String)
        ensures
            text@ == list_text(names(allowed@)),
    {
        let n = allowed.len();
        let mut inside = String::new();
        let mut i: usize = 0;
        assert(names(allowed@).take(0) =~= Seq::<Seq<char>>::empty());
        while i < n
            invariant
                n == allowed@.len(),
                i <= n,
                inside@ == items_text(names(allowed@).take(i as int)),
            decreases n - i,
        {
            let ghost before = names(allowed@).take(i as int);
            let ghost now = names(allowed@).take(i + 1);
            proof {
                assert(now.drop_last() =~= before);
                assert(now.last() == allowed@[i as int]@);
                if i == 0 {
                    assert(now[0] == allowed@[0]@);
                    assert(Seq::<char>::empty() + "\""@ =~= "\""@);
                }
            }
            if i > 0 {
                inside = inside.concat(", ");
            }
            inside = inside.concat("\"");
            inside = inside.concat(allowed[i]);
            inside = inside.concat("\"");
            assert(inside@ =~= items_text(now));
            i = i + 1;
        }
        assert(names(allowed@).take(n as int) =~= names(allowed@));
        join3("[", inside.as_str(), "]")
    }

    /// Accepts `value` if and only if it is one of `allowed`.
    pub fn validate_enum(value: &str, allowed: &[&str], field_name: &str) -> (result: Result<
        (),
        PipelineError,
    >)
        ensures
            verdict(result) == if names(allowed@).contains(value@) {
                Ok::<(), Failure>(())
            } else {
                Err(
                    Failure::InvalidNodeConfig(
                        field_name@ + " must be one of "@ + list_text(names(allowed@)) + ", got '"@
                            + value@ + "'"@,
                    ),
                )
            },
    {
        let n = allowed.len();
        let mut i: usize = 0;
        while i < n
            invariant
                n == allowed@.len(),
                i <= n,
                forall|k: int| 0 <= k < i ==> names(allowed@)[k] != value@,
            decreases n - i,
        {
            if same(allowed[i], value) {
                assert(names(allowed@)[i as int] == value@);
                return Ok(());
            }
            i = i + 1;
        }
        let first = join3(field_name, " must be one of ", Self::show_list(allowed).as_str());
        let second = join3(", got '", value, "'");
        let text = first.concat(second.as_str());
        assert(text@ =~= field_name@ + " must be one of "@ + list_text(names(allowed@)) + ", got '"@
            + value@ + "'"@);
        Err(PipelineError::InvalidNodeConfig(text))
    }

    /// Reads a video bitrate in megabits per second.
    pub fn validate_bitrate(bitrate: &str) -> (result: Result<i64, PipelineError>)
        ensures
            plain(result) == bitrate_check(bitrate@),
    {
        match parse_decimal(bitrate) {
            None => Err(invalid("Invalid bitrate format")),
            Some(rate) => if 0 < rate && rate <= 200000000 {
                Ok(rate)
            } else {
                Err(invalid("Bitrate must be between 0.1 and 200 Mbps"))
            },
        }
    }

    /// Reads a constant rate factor.
    pub fn validate_crf(crf: &str) -> (result: Result<u8, PipelineError>)
        ensures
            plain(result) == crf_check(crf@),
    {
        match parse_unsigned(crf) {
            Some(value) => if value > 255 {
                Err(invalid("Invalid CRF format"))
            } else if value <= 51 {
                Ok(value as u8)
            } else {
                Err(invalid("CRF must be between 0 and 51"))
            },
            None => Err(invalid("Invalid CRF format")),
        }
    }

    /// Reads a width and a height in pixels.
    pub fn validate_resolution(width: &str, height: &str) -> (result: Result<
        (u32, u32),
        PipelineError,
    >)
        ensures
            plain(result) == resolution_check(width@, height@),
    {
        let w = match parse_unsigned(width) {
            Some(w) => if w <= u32::MAX as u64 {
                w
            } else {
                return Err(invalid("Invalid width format"));
            },
            None => {
                return Err(invalid("Invalid width format"));
            },
        };
        let h = match parse_unsigned(height) {
            Some(h) => if h <= u32::MAX as u64 {
                h
            } else {
                return Err(invalid("Invalid height format"));
            },
            None => {
                return Err(invalid("Invalid height format"));
            },
        };
        if w >= 32 && h >= 32 && w <= 7680 && h <= 4320 {
            Ok((w as u32, h as u32))
        } else {
            Err(invalid("Resolution must be between 32x32 and 7680x4320"))
        }
    }

    /// Reads a frame rate in frames per second, or `original`.
    pub fn validate_framerate(fps: &str) -> (result: Result<i64, PipelineError>)
        ensures
            plain(result) == framerate_check(fps@),
    {
        if same(fps, "original") {
            return Ok(0);
        }
        match parse_decimal(fps) {
            None => Err(invalid("Invalid framerate format")),
            Some(rate) => if 0 < rate && rate <= 120000000 {
                Ok(rate)
            } else {
                Err(invalid("Framerate must be between 0.1 and 120 fps"))
            },
        }
    }

    /// Reads an audio bitrate in kilobits per second.
    pub fn validate_audio_bitrate(bitrate: &str) -> (result: Result<u32, PipelineError>)
        ensures
            plain(result) == audio_bitrate_check(bitrate@),
    {
        match parse_unsigned(bitrate) {
            Some(value) => if value > u32::MAX as u64 {
                Err(invalid("Invalid audio bitrate format"))
            } else if value >= 32 && value <= 640 {
                Ok(value as u32)
            } else {
                Err(invalid("Audio bitrate must be between 32 and 640 kbps"))
            },
            None => Err(invalid("Invalid audio bitrate format")),
        }
    }
}

} // verus!
