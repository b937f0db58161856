//! The command line: `[-d|--duration <N><s|m>] [-p|--parallelism <N>] <FILEPATH>`.

use crate::error::ConfigError;
use crate::run::RunConfig;
use crate::text::same_text;
use vstd::prelude::*;
use vstd::utf8::*;

verus! {

pub const NANOS_PER_SEC: u128 = 1_000_000_000;

pub const NANOS_PER_MILLI: u128 = 1_000_000;

/// The duration of a run where the command line gives none: ten seconds.
pub const DEFAULT_DURATION: u128 = 10_000_000_000;

/// The number of workers where the command line gives none.
pub const DEFAULT_PARALLELISM: usize = 1;

/// The digits `0` and `9`, in ASCII.
pub const ZERO: u8 = 48;

pub const NINE: u8 = 57;

/// The sign `+`, which may stand before a number.
pub const PLUS: u8 = 43;

/// The letters `A` and `Z`, in ASCII.
pub const CAPITAL_A: u8 = 65;

pub const CAPITAL_Z: u8 = 90;

/// The unit of a duration in seconds: `s`.
pub const SECONDS: u8 = 115;

/// The unit of a duration in milliseconds: `m`.
pub const MILLISECONDS: u8 = 109;

/// `b` is an ASCII decimal digit.
pub open spec fn is_digit(b: u8) -> bool {
    ZERO <= b <= NINE
}

/// The number that the decimal digits `digits` write.
pub open spec fn digits_value(digits: Seq<u8>) -> nat
    decreases digits.len(),
{
    if digits.len() == 0 {
        0
    } else {
        digits_value(digits.drop_last()) * 10 + (digits.last() - ZERO) as nat
    }
}

/// The digits of a number: the text without the `+` that may stand before them.
pub open spec fn unsigned_part(text: Seq<u8>) -> Seq<u8> {
    if text.len() > 0 && text[0] == PLUS {
        text.drop_first()
    } else {
        text
    }
}

/// The number that `text` writes: an optional `+`, then one or more decimal digits, with
/// a value of at most `u64::MAX`. `None` for any other text.
pub open spec fn parse_number(text: Seq<u8>) -> Option<u64> {
    let digits = unsigned_part(text);
    if digits.len() > 0 && (forall|i: int| 0 <= i < digits.len() ==> is_digit(#[trigger] digits[i]))
        && digits_value(digits) <= u64::MAX {
        Some(digits_value(digits) as u64)
    } else {
        None
    }
}

/// The number of workers that `text` writes: a number that fits `usize`.
pub open spec fn parse_count(text: Seq<u8>) -> Option<usize> {
    match parse_number(text) {
        Some(n) if n <= usize::MAX => Some(n as usize),
        _ => None,
    }
}

/// An ASCII capital letter as its small letter, any other byte as it is.
pub open spec fn ascii_lower(b: u8) -> u8 {
    if CAPITAL_A <= b <= CAPITAL_Z {
        (b + 32) as u8
    } else {
        b
    }
}

/// The duration, in nanoseconds, that `text` writes: a number and, as its last byte, the
/// unit, `s` for seconds or `m` for milliseconds, in either case.
pub open spec fn parse_duration_text(text: Seq<u8>) -> Result<u128, ConfigError> {
    if text.len() == 0 {
        Err(ConfigError::MissingSuffix)
    } else {
        match parse_number(text.drop_last()) {
            None => Err(ConfigError::InvalidNumber),
            Some(n) => {
                let unit = ascii_lower(text.last());
                if unit == SECONDS {
                    Ok((n * NANOS_PER_SEC) as u128)
                } else if unit == MILLISECONDS {
                    Ok((n * NANOS_PER_MILLI) as u128)
                } else {
                    Err(ConfigError::UnknownTimeModifier(unit))
                }
            },
        }
    }
}

/// What the arguments read so far have set.
pub struct Settings {
    pub duration: Option<u128>,
    pub parallelism: Option<usize>,
    pub filepath: Option<Seq<char>>,
}

/// The flag that announces the duration.
pub open spec fn is_duration_flag(arg: Seq<char>) -> bool {
    arg == "-d"@ || arg == "--duration"@
}

/// The flag that announces the number of workers.
pub open spec fn is_parallelism_flag(arg: Seq<char>) -> bool {
    arg == "-p"@ || arg == "--parallelism"@
}

/// Reads the arguments from the `i`-th on. A flag takes the argument after it as its
/// value, whatever that is; any other argument is the file path. Where a setting is
/// given twice, the last one counts.
pub open spec fn read_arguments(args: Seq<Seq<char>>, i: int, settings: Settings) -> Result<
    Settings,
    ConfigError,
>
    decreases args.len() - i,
{
    if i < 0 || i >= args.len() {
        Ok(settings)
    } else if is_duration_flag(args[i]) {
        if i + 1 >= args.len() {
            Err(ConfigError::MissingArgument)
        } else {
            match parse_duration_text(encode_utf8(args[i + 1])) {
                Err(e) => Err(e),
                Ok(d) => read_arguments(args, i + 2, Settings { duration: Some(d), ..settings }),
            }
        }
    } else if is_parallelism_flag(args[i]) {
        if i + 1 >= args.len() {
            Err(ConfigError::MissingArgument)
        } else {
            match parse_count(encode_utf8(args[i + 1])) {
                None => Err(ConfigError::InvalidNumber),
                Some(n) => read_arguments(
                    args,
                    i + 2,
                    Settings { parallelism: Some(n), ..settings },
                ),
            }
        }
    } else {
        read_arguments(args, i + 1, Settings { filepath: Some(args[i]), ..settings })
    }
}

/// The arguments of a run once every argument is read: the file path is required, the
/// duration is ten seconds and the parallelism one where not given.
pub open spec fn parse_arguments_end(settings: Settings) -> Result<CmdArgsView, ConfigError> {
    match settings.filepath {
        None => Err(ConfigError::MissingArgument),
        Some(filepath) => Ok(
            CmdArgsView {
                parallelism: match settings.parallelism {
                    Some(n) => n,
                    None => DEFAULT_PARALLELISM,
                },
                duration: match settings.duration {
                    Some(d) => d,
                    None => DEFAULT_DURATION,
                },
                filepath,
            },
        ),
    }
}

/// The arguments of a run, as the command line `args` gives them.
pub open spec fn parse_arguments(args: Seq<Seq<char>>) -> Result<CmdArgsView, ConfigError> {
    match read_arguments(
        args,
        0,
        Settings { duration: None, parallelism: None, filepath: None },
    ) {
        Err(e) => Err(e),
        Ok(settings) => parse_arguments_end(settings),
    }
}

/// The arguments of a run.
#[derive(Debug, Clone)]
pub struct CmdArgs {
    /// The number of workers.
    pub parallelism: usize,
    /// The time for which samples are collected, in nanoseconds.
    pub duration: u128,
    /// The path of the request file.
    pub filepath: String,
}

/// The arguments of a run, with the file path as text.
pub struct CmdArgsView {
    pub parallelism: usize,
    pub duration: u128,
    pub filepath: Seq<char>,
}

impl View for CmdArgs {
    type V = CmdArgsView;

    open spec fn view(&self) -> CmdArgsView {
        CmdArgsView {
            parallelism: self.parallelism,
            duration: self.duration,
            filepath: self.filepath@,
        }
    }
}

/// The view of a result of `CmdArgs::new`.
pub open spec fn view_of(r: Result<CmdArgs, ConfigError>) -> Result<CmdArgsView, ConfigError> {
    match r {
        Ok(args) => Ok(args@),
        Err(e) => Err(e),
    }
}

/// A longer run of digits writes no smaller number.
proof fn lemma_digits_value_grows(digits: Seq<u8>, k: int)
    requires
        0 <= k <= digits.len(),
    ensures
        digits_value(digits.take(k)) <= digits_value(digits),
    decreases digits.len() - k,
{
    if k == digits.len() {
        assert(digits.take(k) =~= digits);
    } else {
        lemma_digits_value_grows(digits, k + 1);
        assert(digits.take(k + 1).drop_last() =~= digits.take(k));
    }
}

/// Reads the number that the bytes from `from` up to `to` write.
fn read_number(bytes: &[u8], from: usize, to: usize) -> (r: Option<u64>)
    requires
        from <= to <= bytes@.len(),
    ensures
        r == parse_number(bytes@.subrange(from as int, to as int)),
{
    let ghost text = bytes@.subrange(from as int, to as int);
    let mut start = from;
    if start < to && bytes[start] == PLUS {
        start += 1;
    }
    let ghost digits = bytes@.subrange(start as int, to as int);
    assert(digits =~= unsigned_part(text));
    if start == to {
        return None;
    }
    let mut value: u64 = 0;
    let mut i = start;
    while i < to
        invariant
            from <= start <= i <= to <= bytes@.len(),
            start < to,
            digits == bytes@.subrange(start as int, to as int),
            digits == unsigned_part(bytes@.subrange(from as int, to as int)),
            forall|j: int| 0 <= j < i - start ==> is_digit(#[trigger] digits[j]),
            value == digits_value(digits.take(i - start)),
        decreases to - i,
    {
        let b = bytes[i];
        if b < ZERO || b > NINE {
            assert(!is_digit(digits[i - start]));
            return None;
        }
        let ghost next = digits.take(i - start + 1);
        proof {
            assert(next.drop_last() =~= digits.take(i - start));
            assert(next.last() == b);
            lemma_digits_value_grows(digits, i - start + 1);
        }
        let scaled = match value.checked_mul(10) {
            Some(v) => v,
            None => {
                return None;
            },
        };
        value = match scaled.checked_add((b - ZERO) as u64) {
            Some(v) => v,
            None => {
                return None;
            },
        };
        i += 1;
    }
    assert(digits.take(to - start) =~= digits);
    Some(value)
}

/// Reads a duration: a number and `s` for seconds or `m` for milliseconds. The result is
/// in nanoseconds.
pub fn parse_duration(text: &str) -> (r: Result<u128, ConfigError>)
    ensures
        r == parse_duration_text(encode_utf8(text@)),
{
    let bytes = text.as_bytes();
    let n = bytes.len();
    if n == 0 {
        return Err(ConfigError::MissingSuffix);
    }
    assert(bytes@.subrange(0, n - 1) =~= bytes@.drop_last());
    let number = match read_number(bytes, 0, n - 1) {
        Some(v) => v,
        None => {
            return Err(ConfigError::InvalidNumber);
        },
    };
    let last = bytes[n - 1];
    let unit = if CAPITAL_A <= last && last <= CAPITAL_Z {
        last + 32
    } else {
        last
    };
    if unit == SECONDS {
        Ok(number as u128 * NANOS_PER_SEC)
    } else if unit == MILLISECONDS {
        Ok(number as u128 * NANOS_PER_MILLI)
    } else {
        Err(ConfigError::UnknownTimeModifier(unit))
    }
}

/// Reads a number of workers.
pub fn parse_parallelism(text: &str) -> (r: Result<usize, ConfigError>)
    ensures
        r == match parse_count(encode_utf8(text@)) {
            Some(n) => Ok::<usize, ConfigError>(n),
            None => Err(ConfigError::InvalidNumber),
        },
{
    let bytes = text.as_bytes();
    assert(bytes@.subrange(0, bytes@.len() as int) =~= bytes@);
    match read_number(bytes, 0, bytes.len()) {
        Some(v) => {
            if v <= usize::MAX as u64 {
                Ok(v as usize)
            } else {
                Err(ConfigError::InvalidNumber)
            }
        },
        None => Err(ConfigError::InvalidNumber),
    }
}

impl CmdArgs {
    /// The configuration of the run that these arguments ask for. A parallelism of zero
    /// is refused.
    pub fn run_config(&self) -> (r: Result<RunConfig, ConfigError>)
        ensures
            match r {
                Ok(config) => self.parallelism >= 1 && config.spec_duration() == self.duration
                    && config.spec_parallelism() == self.parallelism,
                Err(e) => self.parallelism == 0 && e == ConfigError::NoWorkers,
            },
    {
        RunConfig::new(self.duration, self.parallelism)
    }

    /// Reads the arguments of the command line, the program's name left out.
    pub fn new(args: &Vec<String>) -> (r: Result<CmdArgs, ConfigError>)
        ensures
            view_of(r) == parse_arguments(args.deep_view()),
    {
        let ghost texts = args.deep_view();
        let mut duration: Option<u128> = None;
        let mut parallelism: Option<usize> = None;
        let mut filepath: Option<String> = None;
        let mut i: usize = 0;
        while i < args.len()
            invariant
                i <= args.len(),
                texts == args.deep_view(),
                texts.len() == args.len(),
                parse_arguments(texts) == match read_arguments(
                    texts,
                    i as int,
                    Settings {
                        duration,
                        parallelism,
                        filepath: match filepath {
                            Some(f) => Some(f@),
                            None => None,
                        },
                    },
                ) {
                    Err(e) => Err::<CmdArgsView, ConfigError>(e),
                    Ok(settings) => parse_arguments_end(settings),
                },
            decreases args.len() - i,
        {
            let arg = args[i].as_str();
            assert(arg@ == texts[i as int]);
            if same_text(arg, "-d") || same_text(arg, "--duration") {
                if i + 1 >= args.len() {
                    return Err(ConfigError::MissingArgument);
                }
                assert(args[i + 1]@ == texts[i + 1]);
                match parse_duration(args[i + 1].as_str()) {
                    Ok(d) => {
                        duration = Some(d);
                    },
                    Err(e) => {
                        return Err(e);
                    },
                }
                i += 2;
            } else if same_text(arg, "-p") || same_text(arg, "--parallelism") {
                if i + 1 >= args.len() {
                    return Err(ConfigError::MissingArgument);
                }
                assert(args[i + 1]@ == texts[i + 1]);
                match parse_parallelism(args[i + 1].as_str()) {
                    Ok(n) => {
                        parallelism = Some(n);
                    },
                    Err(e) => {
                        return Err(e);
                    },
                }
                i += 2;
            } else {
                filepath = Some(args[i].clone());
                i += 1;
            }
        }
        match filepath {
            None => Err(ConfigError::MissingArgument),
            Some(filepath) => Ok(
                CmdArgs {
                    parallelism: match parallelism {
                        Some(n) => n,
                        None => DEFAULT_PARALLELISM,
                    },
                    duration: match duration {
                        Some(d) => d,
                        None => DEFAULT_DURATION,
                    },
                    filepath,
                },
            ),
        }
    }
}

} // verus!
