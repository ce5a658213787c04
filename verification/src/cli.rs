use vstd::prelude::*;
use vstd::string::StringSliceAdditionalSpecFns;

use crate::alg::{default_algs, default_algs_spec, default_for_size, guess_alg, Alg};
use crate::text::chars_of;

verus! {

/// The switches of the command line that the decisions below read.
pub struct Options {
    pub check: bool,
    pub ignore_missing: bool,
    pub quiet: bool,
    pub status: bool,
    pub strict: bool,
    pub warn: bool,
    pub relative: bool,
    pub binary: bool,
    pub text: bool,
}

/// The options that only make sense when verifying checksums.
#[derive(Clone, Copy, Debug, PartialEq, Eq, Structural)]
pub enum CheckOnlyOption {
    IgnoreMissing,
    Quiet,
    Status,
    Strict,
    Warn,
    Relative,
}

impl CheckOnlyOption {
    /// The long flag of the option.
    pub open spec fn flag_text(self) -> Seq<char> {
        match self {
            CheckOnlyOption::IgnoreMissing => "--ignore-missing"@,
            CheckOnlyOption::Quiet => "--quiet"@,
            CheckOnlyOption::Status => "--status"@,
            CheckOnlyOption::Strict => "--strict"@,
            CheckOnlyOption::Warn => "--warn"@,
            CheckOnlyOption::Relative => "--relative"@,
        }
    }

    /// The long flag of the option.
    pub fn flag(&self) -> (s: &'static str)
        ensures
            s@ == self.flag_text(),
    {
        match self {
            CheckOnlyOption::IgnoreMissing => "--ignore-missing",
            CheckOnlyOption::Quiet => "--quiet",
            CheckOnlyOption::Status => "--status",
            CheckOnlyOption::Strict => "--strict",
            CheckOnlyOption::Warn => "--warn",
            CheckOnlyOption::Relative => "--relative",
        }
    }
}

/// Why a command line is refused.
#[derive(Clone, Copy, Debug, PartialEq, Eq, Structural)]
pub enum OptionError {
    /// A check-only option outside check mode.
    CheckOnly(CheckOnlyOption),
    /// Binary and text mode together.
    BinaryAndText,
}

/// The first reason to refuse the options, in the order the tool tests
/// them: the check-only options (outside check mode) in the order
/// `--ignore-missing`, `--quiet`, `--status`, `--strict`, `--warn`,
/// `--relative`; then binary together with text mode.
pub open spec fn option_error(o: Options) -> Option<OptionError> {
    if !o.check && o.ignore_missing {
        Some(OptionError::CheckOnly(CheckOnlyOption::IgnoreMissing))
    } else if !o.check && o.quiet {
        Some(OptionError::CheckOnly(CheckOnlyOption::Quiet))
    } else if !o.check && o.status {
        Some(OptionError::CheckOnly(CheckOnlyOption::Status))
    } else if !o.check && o.strict {
        Some(OptionError::CheckOnly(CheckOnlyOption::Strict))
    } else if !o.check && o.warn {
        Some(OptionError::CheckOnly(CheckOnlyOption::Warn))
    } else if !o.check && o.relative {
        Some(OptionError::CheckOnly(CheckOnlyOption::Relative))
    } else if o.binary && o.text {
        Some(OptionError::BinaryAndText)
    } else {
        None
    }
}

/// The check-only option that is refused, if `optval` is set outside check
/// mode.
pub fn checkonly(check: bool, optval: bool, option: CheckOnlyOption) -> (r: Option<OptionError>)
    ensures
        r == (if !check && optval {
            Some(OptionError::CheckOnly(option))
        } else {
            None
        }),
{
    if !check && optval {
        Some(OptionError::CheckOnly(option))
    } else {
        None
    }
}

/// Accepts the options, or gives the first reason to refuse them.
pub fn validate_options(o: &Options) -> (r: Result<(), OptionError>)
    ensures
        match option_error(*o) {
            Some(e) => r == Err::<(), OptionError>(e),
            None => r is Ok,
        },
{
    if let Some(e) = checkonly(o.check, o.ignore_missing, CheckOnlyOption::IgnoreMissing) {
        return Err(e);
    }
    if let Some(e) = checkonly(o.check, o.quiet, CheckOnlyOption::Quiet) {
        return Err(e);
    }
    if let Some(e) = checkonly(o.check, o.status, CheckOnlyOption::Status) {
        return Err(e);
    }
    if let Some(e) = checkonly(o.check, o.strict, CheckOnlyOption::Strict) {
        return Err(e);
    }
    if let Some(e) = checkonly(o.check, o.warn, CheckOnlyOption::Warn) {
        return Err(e);
    }
    if let Some(e) = checkonly(o.check, o.relative, CheckOnlyOption::Relative) {
        return Err(e);
    }
    if o.binary && o.text {
        return Err(OptionError::BinaryAndText);
    }
    Ok(())
}

/// Whether the switch of a check-only option is set.
pub open spec fn check_only_set(o: Options, x: CheckOnlyOption) -> bool {
    match x {
        CheckOnlyOption::IgnoreMissing => o.ignore_missing,
        CheckOnlyOption::Quiet => o.quiet,
        CheckOnlyOption::Status => o.status,
        CheckOnlyOption::Strict => o.strict,
        CheckOnlyOption::Warn => o.warn,
        CheckOnlyOption::Relative => o.relative,
    }
}

/// In check mode no option is refused as check-only: the options are
/// accepted unless binary and text mode are both asked for, and then that
/// is the reason given.
pub proof fn check_mode_refuses_no_check_option(o: Options)
    requires
        o.check,
    ensures
        option_error(o) is None <==> !(o.binary && o.text),
        o.binary && o.text ==> option_error(o) == Some(OptionError::BinaryAndText),
{
}

/// A check-only option is refused exactly outside check mode: a refusal
/// names an option that is set while the check flag is off, and outside
/// check mode any set check-only option brings a refusal of that kind.
/// Binary and text mode together are always refused.
pub proof fn check_only_options_refused_outside_check(o: Options, x: CheckOnlyOption)
    ensures
        option_error(o) matches Some(OptionError::CheckOnly(y)) ==> !o.check && check_only_set(o, y),
        !o.check && check_only_set(o, x) ==> option_error(o) matches Some(OptionError::CheckOnly(_)),
        option_error(o) == Some(OptionError::BinaryAndText) ==> o.binary && o.text,
        o.binary && o.text ==> option_error(o) is Some,
        option_error(o) is None <==> (!(o.binary && o.text) && (o.check || !(o.ignore_missing
            || o.quiet || o.status || o.strict || o.warn || o.relative))),
{
}

/// Whether the last of the positional arguments is the expected digest of
/// a fast check: with more than one argument, when `--eq` is given or the
/// last argument names no regular file.
pub fn takes_expected_digest(arg_count: usize, eq: bool, last_is_file: bool) -> (r: bool)
    ensures
        r == (arg_count > 1 && (eq || !last_is_file)),
{
    arg_count > 1 && (eq || !last_is_file)
}

/// Whether a file argument stands for the standard input.
pub fn is_stdin_name(name: &str) -> (r: bool)
    ensures
        r == (name@ == "-"@),
{
    proof {
        reveal_strlit("-");
    }
    let c = chars_of(name);
    let r = c.len() == 1 && c[0] == '-';
    proof {
        if r {
            assert(name@ =~= "-"@);
        }
    }
    r
}

/// Whether input is read in binary mode. From a file: unless text mode is
/// requested (`--text`). From the standard input: as requested by
/// `--binary` or `--text`, and otherwise binary unless the standard input
/// is a terminal.
pub fn reads_binary(reads_stdin: bool, stdin_is_terminal: bool, binary: bool, text: bool) -> (r: bool)
    ensures
        r == (if reads_stdin {
            if binary {
                true
            } else if text {
                false
            } else {
                !stdin_is_terminal
            }
        } else {
            !text
        }),
{
    if reads_stdin {
        if binary {
            true
        } else if text {
            false
        } else {
            !stdin_is_terminal
        }
    } else {
        !text
    }
}

/// The algorithms of hash mode: the requested ones, or the defaults when
/// none is requested.
pub fn hash_mode_algs(requested: &[Alg]) -> (v: Vec<Alg>)
    ensures
        v@ == (if requested@.len() == 0 {
            default_algs_spec()
        } else {
            requested@
        }),
{
    if requested.len() == 0 {
        default_algs()
    } else {
        let mut v: Vec<Alg> = Vec::new();
        let mut i: usize = 0;
        while i < requested.len()
            invariant
                0 <= i <= requested.len(),
                v@ =~= requested@.take(i as int),
            decreases requested.len() - i,
        {
            v.push(requested[i]);
            i = i + 1;
        }
        assert(requested@.take(i as int) =~= requested@);
        v
    }
}

/// The algorithm of a fast check.
#[derive(Clone, Copy, Debug, PartialEq, Eq, Structural)]
pub enum AlgChoice {
    /// The single algorithm requested.
    Given(Alg),
    /// Guessed from the length of the expected digest.
    Guessed(Alg),
    /// No algorithm was requested alone and none fits the digest length.
    Unguessable,
}

/// The algorithm a fast check uses: the one requested if exactly one is,
/// else the one guessed from the expected digest's length.
pub fn fast_check_alg(requested: &[Alg], expected: &str) -> (r: AlgChoice)
    ensures
        r == (if requested@.len() == 1 {
            AlgChoice::Given(requested@[0])
        } else {
            match default_for_size(((expected.spec_bytes().len() as usize) / 2) as int) {
                Some(a) => AlgChoice::Guessed(a),
                None => AlgChoice::Unguessable,
            }
        }),
{
    if requested.len() == 1 {
        AlgChoice::Given(requested[0])
    } else {
        match guess_alg(expected) {
            Some(a) => AlgChoice::Guessed(a),
            None => AlgChoice::Unguessable,
        }
    }
}

} // verus!
