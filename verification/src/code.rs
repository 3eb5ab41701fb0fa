//! Completion codes and the integers that stand for them.

use vstd::prelude::*;

use crate::number::{trimmed, utf8_str};

verus! {

/// A Tcl completion code.
#[derive(Debug, Clone, Copy, PartialEq, Eq, Structural)]
pub enum Code {
    Okay,
    Error,
    Return,
    Break,
    Continue,
    /// A user code from `return -code N`. It propagates like an exception until
    /// a `catch` reports it; see [`Code::is_canonical`].
    Other(i32),
}

impl Code {
    /// The integer that stands for the code: what `catch` returns and what the
    /// `-code` entry of an options dictionary holds.
    pub open spec fn number(self) -> int {
        match self {
            Code::Okay => 0,
            Code::Error => 1,
            Code::Return => 2,
            Code::Break => 3,
            Code::Continue => 4,
            Code::Other(n) => n as int,
        }
    }

    /// Whether the code uses a named variant wherever one exists.
    pub open spec fn is_canonical(self) -> bool {
        self matches Code::Other(n) ==> !(0 <= n <= 4)
    }

    /// The integer that stands for the code.
    #[must_use]
    pub fn as_int(self) -> (n: i64)
        ensures
            n == self.number(),
    {
        match self {
            Code::Okay => 0,
            Code::Error => 1,
            Code::Return => 2,
            Code::Break => 3,
            Code::Continue => 4,
            Code::Other(n) => n as i64,
        }
    }

    /// The code that an integer stands for: `0..=4` are the named codes.
    #[must_use]
    pub fn from_int(n: i32) -> (c: Code)
        ensures
            c.number() == n,
            c.is_canonical(),
    {
        match n {
            0 => Code::Okay,
            1 => Code::Error,
            2 => Code::Return,
            3 => Code::Break,
            4 => Code::Continue,
            other => Code::Other(other),
        }
    }
}

/// A canonical code is determined by its integer.
pub proof fn canonical_code_is_its_number(a: Code, b: Code)
    requires
        a.is_canonical(),
        b.is_canonical(),
        a.number() == b.number(),
    ensures
        a == b,
{
}

/// What the number facility reads in a whole word, where it reads a number.
#[derive(Debug, Clone, Copy, PartialEq, Eq, Structural)]
pub enum Numeral {
    Int(i64),
    /// An integer whose magnitude no wide integer holds.
    Big,
    Double,
    Nan,
}

/// `n` reduced to 32 bits, as C's conversion to `int` does.
pub open spec fn as_c_int(n: int) -> int {
    if n > i32::MAX {
        n - 0x1_0000_0000
    } else {
        n
    }
}

/// The completion code that a word has by its reading: the signed and the
/// unsigned 32-bit range are accepted and reduced to an `int`, so that
/// `0xFFFFFFFF` is `-1`. Anything else is no completion code.
pub open spec fn completion_int(reading: Option<Numeral>) -> Option<int> {
    match reading {
        Some(Numeral::Int(n)) => if i32::MIN <= n <= u32::MAX {
            Some(as_c_int(n as int))
        } else {
            None
        },
        _ => None,
    }
}

/// The completion code that the word `b` is. `reading` is what the number
/// facility reads in the word without the white space around it; a word that is
/// not UTF-8 is none, whatever is read in it.
#[must_use]
pub fn parse_completion_int(b: &[u8], reading: Option<Numeral>) -> (r: Option<i32>)
    ensures
        match r {
            Some(v) => trimmed(b@) is Some && completion_int(reading) == Some(v as int),
            None => trimmed(b@) is None || completion_int(reading) is None,
        },
{
    if utf8_str(b).is_none() {
        return None;
    }
    match reading {
        Some(Numeral::Int(n)) => {
            if n < -0x8000_0000 || n > 0xffff_ffff {
                None
            } else if n > 0x7fff_ffff {
                Some((n - 0x1_0000_0000) as i32)
            } else {
                Some(n as i32)
            }
        },
        _ => None,
    }
}

/// A completion code is the number that was read, as far as 32 bits hold it: it
/// is a 32-bit integer that differs from the number by a multiple of two to the
/// 32nd, and every number of the signed or the unsigned range has one.
pub proof fn a_completion_code_is_the_number(reading: Option<Numeral>)
    ensures
        match completion_int(reading) {
            Some(c) => {
                &&& reading matches Some(Numeral::Int(n))
                &&& i32::MIN <= n <= u32::MAX
                &&& i32::MIN <= c <= i32::MAX
                &&& c == n || c == n - 0x1_0000_0000
            },
            None => reading matches Some(Numeral::Int(n)) ==> n < i32::MIN || n > u32::MAX,
        },
{
}

} // verus!
