//! The failures an extraction run can report.
//!
//! Every failure is fatal to the invocation that raised it: no partial
//! manifest is written and no partial artifact is produced.

use vstd::prelude::*;
use vstd::string::*;

verus! {

/// The decimal digit character of a value below ten.
pub open spec fn digit_char(d: nat) -> char {
    if d == 0 {
        '0'
    } else if d == 1 {
        '1'
    } else if d == 2 {
        '2'
    } else if d == 3 {
        '3'
    } else if d == 4 {
        '4'
    } else if d == 5 {
        '5'
    } else if d == 6 {
        '6'
    } else if d == 7 {
        '7'
    } else if d == 8 {
        '8'
    } else {
        '9'
    }
}

/// The decimal digits of a natural number, most significant first.
pub open spec fn decimal_digits(n: nat) -> Seq<char>
    decreases n,
{
    if n < 10 {
        seq![digit_char(n)]
    } else {
        decimal_digits(n / 10).push(digit_char(n % 10))
    }
}

/// The decimal rendering of an integer: a minus sign and the magnitude's
/// digits for a negative value, the digits alone otherwise.
pub open spec fn decimal_of(n: int) -> Seq<char> {
    if n < 0 {
        seq!['-'] + decimal_digits((-n) as nat)
    } else {
        decimal_digits(n as nat)
    }
}

/// Append one decimal digit character.
fn push_digit(s: &mut String, d: u64)
    requires
        d < 10,
    ensures
        final(s)@ == old(s)@.push(digit_char(d as nat)),
{
    let c: &str = if d == 0 {
        "0"
    } else if d == 1 {
        "1"
    } else if d == 2 {
        "2"
    } else if d == 3 {
        "3"
    } else if d == 4 {
        "4"
    } else if d == 5 {
        "5"
    } else if d == 6 {
        "6"
    } else if d == 7 {
        "7"
    } else if d == 8 {
        "8"
    } else {
        "9"
    };
    proof {
        reveal_strlit("0");
        reveal_strlit("1");
        reveal_strlit("2");
        reveal_strlit("3");
        reveal_strlit("4");
        reveal_strlit("5");
        reveal_strlit("6");
        reveal_strlit("7");
        reveal_strlit("8");
        reveal_strlit("9");
        assert(c@ =~= seq![digit_char(d as nat)]);
    }
    s.append(c);
    proof {
        assert(s@ =~= old(s)@.push(digit_char(d as nat)));
    }
}

/// The decimal digits of an unsigned value, as `decimal_digits` gives them.
fn u64_decimal(m: u64) -> (r: String)
    ensures
        r@ == decimal_digits(m as nat),
    decreases m,
{
    if m < 10 {
        let mut s = String::new();
        push_digit(&mut s, m);
        proof {
            assert(s@ =~= seq![digit_char(m as nat)]);
        }
        s
    } else {
        let mut s = u64_decimal(m / 10);
        push_digit(&mut s, m % 10);
        s
    }
}

/// The decimal rendering of a signed value, as `decimal_of` gives it.
pub fn i64_decimal(n: i64) -> (r: String)
    ensures
        r@ == decimal_of(n as int),
{
    if n >= 0 {
        u64_decimal(n as u64)
    } else {
        let m: u64 = ((-(n + 1)) as u64) + 1;
        proof {
            assert(m as int == -(n as int));
        }
        let mut s: String = "-".to_owned();
        s.append(u64_decimal(m).as_str());
        proof {
            reveal_strlit("-");
            assert(s@ =~= seq!['-'] + decimal_digits((-(n as int)) as nat));
        }
        s
    }
}

/// The failure taxonomy of one extraction run.
#[derive(Clone, Debug, PartialEq)]
pub enum Error {
    /// A manifest path whose file name is not the manifest file name.
    NotAManifest,
    /// A path whose canonicalization the filesystem refused; carries the
    /// path as given.
    Canonicalize(String),
    /// A required section or field is absent; carries its name.
    SectionNotFound(String),
    /// A section expected to be a table is something else.
    NotATable(String),
    /// A section expected to be an array is something else.
    NotAnArray(String),
    /// A field expected to be a string is something else.
    NotAString(String),
    /// A section needed a path field, and the conventional default source
    /// file is absent; carries the default that was tried.
    DefaultSourceMissing(String),
    /// A function declared more than one callback-vector parameter; carries
    /// the function's name.
    DuplicateCallbackVec(String),
    /// The external build tool exited with a non-zero status; carries the
    /// exit code when the tool reported one.
    ToolFailed(Option<i64>),
    /// The bytes the driver emitted did not parse as the expected schema.
    MalformedAbi,
}

impl Error {
    /// A short label naming the kind of failure, for error reports.
    pub fn label(&self) -> (r: &'static str)
        ensures
            r@ == match self {
                Error::NotAManifest => "Manifest file must be a Cargo.toml"@,
                Error::Canonicalize(_) => "failed to canonicalize"@,
                Error::SectionNotFound(_) => "section not found"@,
                Error::NotATable(_) => "section is not a table"@,
                Error::NotAnArray(_) => "section is not an array"@,
                Error::NotAString(_) => "value is not a string"@,
                Error::DefaultSourceMissing(_) => "no path specified, and the default was not found"@,
                Error::DuplicateCallbackVec(_) => "a function can only have one callback-vector parameter"@,
                Error::ToolFailed(_) => "external tool failed"@,
                Error::MalformedAbi => "malformed interface description"@,
            },
    {
        match self {
            Error::NotAManifest => "Manifest file must be a Cargo.toml",
            Error::Canonicalize(_) => "failed to canonicalize",
            Error::SectionNotFound(_) => "section not found",
            Error::NotATable(_) => "section is not a table",
            Error::NotAnArray(_) => "section is not an array",
            Error::NotAString(_) => "value is not a string",
            Error::DefaultSourceMissing(_) => "no path specified, and the default was not found",
            Error::DuplicateCallbackVec(_) => "a function can only have one callback-vector parameter",
            Error::ToolFailed(_) => "external tool failed",
            Error::MalformedAbi => "malformed interface description",
        }
    }

    /// The subject the failure names, when it names one.
    pub fn subject(&self) -> (r: Option<&String>)
        ensures
            match self {
                Error::Canonicalize(s) => r == Some(s),
                Error::SectionNotFound(s) => r == Some(s),
                Error::NotATable(s) => r == Some(s),
                Error::NotAnArray(s) => r == Some(s),
                Error::NotAString(s) => r == Some(s),
                Error::DefaultSourceMissing(s) => r == Some(s),
                Error::DuplicateCallbackVec(s) => r == Some(s),
                Error::NotAManifest => r is None,
                Error::ToolFailed(_) => r is None,
                Error::MalformedAbi => r is None,
            },
    {
        match self {
            Error::Canonicalize(s) => Some(s),
            Error::SectionNotFound(s) => Some(s),
            Error::NotATable(s) => Some(s),
            Error::NotAnArray(s) => Some(s),
            Error::NotAString(s) => Some(s),
            Error::DefaultSourceMissing(s) => Some(s),
            Error::DuplicateCallbackVec(s) => Some(s),
            Error::NotAManifest => None,
            Error::ToolFailed(_) => None,
            Error::MalformedAbi => None,
        }
    }

    /// A one-line report: the label, the subject when there is one, and the
    /// tool's exit code when the tool reported one.
    pub fn describe(&self) -> (r: String)
        ensures
            match self {
                Error::ToolFailed(Some(c)) => r@ == self.label_spec() + ": exit code "@
                    + decimal_of(*c as int),
                _ => match self.subject_spec() {
                    Some(s) => r@ == self.label_spec() + ": "@ + s,
                    None => r@ == self.label_spec(),
                },
            },
    {
        let mut out: String = self.label().to_owned();
        match self {
            Error::ToolFailed(Some(c)) => {
                out.append(": exit code ");
                let num = i64_decimal(*c);
                out.append(num.as_str());
                proof {
                    reveal_strlit(": exit code ");
                }
                out
            },
            _ => match self.subject() {
                Some(s) => {
                    out.append(": ");
                    out.append(s.as_str());
                    proof {
                        reveal_strlit(": ");
                    }
                    out
                },
                None => out,
            },
        }
    }

    /// The label as `label` returns it.
    pub open spec fn label_spec(&self) -> Seq<char> {
        match self {
            Error::NotAManifest => "Manifest file must be a Cargo.toml"@,
            Error::Canonicalize(_) => "failed to canonicalize"@,
            Error::SectionNotFound(_) => "section not found"@,
            Error::NotATable(_) => "section is not a table"@,
            Error::NotAnArray(_) => "section is not an array"@,
            Error::NotAString(_) => "value is not a string"@,
            Error::DefaultSourceMissing(_) => "no path specified, and the default was not found"@,
            Error::DuplicateCallbackVec(_) => "a function can only have one callback-vector parameter"@,
            Error::ToolFailed(_) => "external tool failed"@,
            Error::MalformedAbi => "malformed interface description"@,
        }
    }

    /// The subject's characters, when the failure names a subject.
    pub open spec fn subject_spec(&self) -> Option<Seq<char>> {
        match self {
            Error::Canonicalize(s) => Some(s@),
            Error::SectionNotFound(s) => Some(s@),
            Error::NotATable(s) => Some(s@),
            Error::NotAnArray(s) => Some(s@),
            Error::NotAString(s) => Some(s@),
            Error::DefaultSourceMissing(s) => Some(s@),
            Error::DuplicateCallbackVec(s) => Some(s@),
            Error::NotAManifest => None,
            Error::ToolFailed(_) => None,
            Error::MalformedAbi => None,
        }
    }
}

} // verus!
