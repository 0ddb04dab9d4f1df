use crate::video::Video;
use vstd::prelude::*;
use vstd::string::StrSliceExecFns;

verus! {

// ---------------------------------------------------------------------------
// Command-line parsing: `<program> <filename> <fps>`
// ---------------------------------------------------------------------------

/// A configuration failure at startup.
#[derive(Clone, Copy, Debug, PartialEq, Eq, Structural)]
pub enum ConfigError {
    /// Fewer arguments than the usage `<program> <filename> <fps>` asks for.
    NotEnoughArguments,
    /// The frame-rate argument is not a positive integer.
    InvalidFrameRate,
}

pub open spec fn spec_is_digit(c: char) -> bool {
    '0' <= c && c <= '9'
}

pub open spec fn spec_digit(c: char) -> int {
    c as int - '0' as int
}

/// The numeric value of a string of decimal digits.
pub open spec fn spec_decimal_value(s: Seq<char>) -> int
    decreases s.len(),
{
    if s.len() == 0 {
        0
    } else {
        10 * spec_decimal_value(s.drop_last()) + spec_digit(s.last())
    }
}

pub open spec fn spec_all_digits(s: Seq<char>) -> bool {
    forall|i: int| 0 <= i < s.len() ==> spec_is_digit(#[trigger] s[i])
}

/// A text the frame-rate argument accepts: decimal digits only, at least one,
/// with a positive value that fits the frame-rate field.
pub open spec fn spec_valid_fps(s: Seq<char>) -> bool {
    &&& s.len() > 0
    &&& spec_all_digits(s)
    &&& 1 <= spec_decimal_value(s) <= u32::MAX
}

proof fn lemma_decimal_nonneg(s: Seq<char>)
    requires
        spec_all_digits(s),
    ensures
        spec_decimal_value(s) >= 0,
    decreases s.len(),
{
    if s.len() > 0 {
        assert(spec_all_digits(s.drop_last()));
        lemma_decimal_nonneg(s.drop_last());
    }
}

/// Appending digits never shrinks the value: the value of a prefix of a digit
/// string is at most the value of the whole.
proof fn lemma_decimal_prefix_le(s: Seq<char>, i: int)
    requires
        spec_all_digits(s),
        0 <= i <= s.len(),
    ensures
        spec_decimal_value(s.take(i)) <= spec_decimal_value(s),
    decreases s.len() - i,
{
    if i < s.len() {
        assert(spec_all_digits(s.take(i)));
        lemma_decimal_nonneg(s.take(i));
        assert(s.take(i + 1).drop_last() =~= s.take(i));
        assert(s.take(i + 1).last() == s[i]);
        lemma_decimal_prefix_le(s, i + 1);
    } else {
        assert(s.take(i) =~= s);
    }
}

/// Parses the frame-rate argument: the value of the digits, exactly on the
/// texts `spec_valid_fps` accepts, and nothing otherwise.
pub fn parse_fps(text: &str) -> (r: Option<u32>)
    ensures
        match r {
            Some(n) => spec_valid_fps(text@) && n == spec_decimal_value(text@),
            None => !spec_valid_fps(text@),
        },
{
    let len = text.unicode_len();
    if len == 0 {
        return None;
    }
    let mut value: u64 = 0;
    let mut i: usize = 0;
    while i < len
        invariant
            len == text@.len(),
            i <= len,
            spec_all_digits(text@.take(i as int)),
            value == spec_decimal_value(text@.take(i as int)),
            value <= u32::MAX,
        decreases len - i,
    {
        let c = text.get_char(i);
        if c < '0' || c > '9' {
            proof {
                assert(!spec_is_digit(text@[i as int]));
            }
            return None;
        }
        let d: u64 = (c as u64) - 48;
        let next: u64 = value * 10 + d;
        proof {
            assert(text@.take(i as int + 1).drop_last() =~= text@.take(i as int));
            assert(text@.take(i as int + 1).last() == text@[i as int]);
        }
        if next > 0xFFFF_FFFFu64 {
            proof {
                if spec_all_digits(text@) {
                    lemma_decimal_prefix_le(text@, i as int + 1);
                    assert(text@.take(len as int) =~= text@);
                }
            }
            return None;
        }
        value = next;
        i += 1;
    }
    proof {
        assert(text@.take(len as int) =~= text@);
    }
    if value == 0 {
        None
    } else {
        Some(value as u32)
    }
}

/// Parses the command line into a video descriptor. The first argument is the
/// program's own name; the second names the source file; the third is the
/// frame rate, a positive integer. Too short a command line and a frame-rate
/// text that is not a positive integer are each rejected with their error.
pub fn parse_args(args: Vec<String>) -> (r: Result<Video, ConfigError>)
    ensures
        match r {
            Ok(v) => args@.len() >= 3 && spec_valid_fps(args@[2]@) && v.filename@ == args@[1]@
                && v.fps == spec_decimal_value(args@[2]@),
            Err(ConfigError::NotEnoughArguments) => args@.len() < 3,
            Err(ConfigError::InvalidFrameRate) => args@.len() >= 3 && !spec_valid_fps(args@[2]@),
        },
{
    if args.len() < 3 {
        return Err(ConfigError::NotEnoughArguments);
    }
    match parse_fps(args[2].as_str()) {
        None => Err(ConfigError::InvalidFrameRate),
        Some(fps) => Ok(Video::new(args[1].clone(), fps)),
    }
}

} // verus!
