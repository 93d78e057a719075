//! Source positions for the assembler: fragments of one input line, and
//! assembly errors carrying a span and a message.

use vstd::prelude::*;

verus! {

/// Whether a byte is ASCII whitespace (space, tab, line feed, vertical tab,
/// form feed or carriage return).
pub open spec fn is_space(b: u8) -> bool {
    b == 0x20 || (0x09 <= b && b <= 0x0d)
}

fn byte_is_space(b: u8) -> (r: bool)
    ensures
        r == is_space(b),
{
    b == 0x20 || (0x09 <= b && b <= 0x0d)
}

/// The first index in `[start, end)` at which `line` holds `c`.
pub open spec fn spec_find(line: Seq<u8>, start: int, end: int, c: u8) -> Option<int>
    decreases end - start,
{
    if start >= end {
        None
    } else if line[start] == c {
        Some(start)
    } else {
        spec_find(line, start + 1, end, c)
    }
}

pub open spec fn spec_trim_start(line: Seq<u8>, start: int, end: int) -> int
    decreases end - start,
{
    if start >= end {
        end
    } else if is_space(line[start]) {
        spec_trim_start(line, start + 1, end)
    } else {
        start
    }
}

pub open spec fn spec_trim_end(line: Seq<u8>, start: int, end: int) -> int
    decreases end - start,
{
    if end <= start {
        start
    } else if is_space(line[end - 1]) {
        spec_trim_end(line, start, end - 1)
    } else {
        end
    }
}

/// Where `spec_find` finds `c`: within the range, at its first occurrence.
pub proof fn lemma_find_in_range(line: Seq<u8>, start: int, end: int, c: u8)
    ensures
        match spec_find(line, start, end, c) {
            None => true,
            Some(i) => start <= i < end && line[i] == c,
        },
    decreases end - start,
{
    if start < end && line[start] != c {
        lemma_find_in_range(line, start + 1, end, c);
    }
}

/// A span of one source line: the line's number (for reporting) and a
/// half-open byte range into the line.
#[derive(Debug, Copy, Clone, PartialEq, Eq, Structural)]
pub struct Fragment {
    pub line_number: usize,
    pub start: usize,
    pub end: usize,
}

impl Fragment {
    /// The span lies within the line.
    pub open spec fn wf(self, line: Seq<u8>) -> bool {
        self.start <= self.end <= line.len()
    }

    /// The bytes the span covers.
    pub open spec fn text(self, line: Seq<u8>) -> Seq<u8> {
        line.subrange(self.start as int, self.end as int)
    }

    pub open spec fn spec_len(self) -> int {
        self.end - self.start
    }

    /// The span with leading and trailing whitespace shed.
    pub open spec fn spec_trim(self, line: Seq<u8>) -> Fragment {
        let s = spec_trim_start(line, self.start as int, self.end as int);
        let e = spec_trim_end(line, s, self.end as int);
        Fragment { line_number: self.line_number, start: s as usize, end: e as usize }
    }

    pub fn new(line: &Vec<u8>, line_number: usize) -> (r: Fragment)
        ensures
            r == (Fragment { line_number, start: 0, end: line@.len() as usize }),
            r.wf(line@),
    {
        Fragment { line_number, start: 0, end: line.len() }
    }

    pub fn len(&self) -> (r: usize)
        requires
            self.start <= self.end,
        ensures
            r == self.spec_len(),
    {
        self.end - self.start
    }

    /// The first `len` bytes of the span (all of it when it is shorter).
    pub fn prefix(&self, len: usize) -> (r: Fragment)
        requires
            self.start <= self.end,
        ensures
            r.line_number == self.line_number,
            r.start == self.start,
            r.end == if len < self.spec_len() {
                self.start + len
            } else {
                self.end as int
            },
    {
        let end = if len < self.end - self.start {
            self.start + len
        } else {
            self.end
        };
        Fragment { line_number: self.line_number, start: self.start, end }
    }

    /// The last `len` bytes of the span (all of it when it is shorter).
    pub fn suffix(&self, len: usize) -> (r: Fragment)
        requires
            self.start <= self.end,
        ensures
            r.line_number == self.line_number,
            r.end == self.end,
            r.start == if len < self.spec_len() {
                self.end - len
            } else {
                self.start as int
            },
    {
        let start = if len < self.end - self.start {
            self.end - len
        } else {
            self.start
        };
        Fragment { line_number: self.line_number, start, end: self.end }
    }

    /// The span with leading and trailing ASCII whitespace shed.
    pub fn trim(&self, line: &Vec<u8>) -> (r: Fragment)
        requires
            self.wf(line@),
        ensures
            r == self.spec_trim(line@),
            r.wf(line@),
            self.start <= r.start <= r.end <= self.end,
            r.spec_trim(line@) == r,
    {
        let mut s = self.start;
        while s < self.end && byte_is_space(line[s])
            invariant
                self.wf(line@),
                self.start <= s <= self.end,
                spec_trim_start(line@, self.start as int, self.end as int) == spec_trim_start(
                    line@,
                    s as int,
                    self.end as int,
                ),
            decreases self.end - s,
        {
            s = s + 1;
        }
        let mut e = self.end;
        while e > s && byte_is_space(line[e - 1])
            invariant
                self.wf(line@),
                s <= e <= self.end,
                spec_trim_end(line@, s as int, self.end as int) == spec_trim_end(
                    line@,
                    s as int,
                    e as int,
                ),
            decreases e,
        {
            e = e - 1;
        }
        let r = Fragment { line_number: self.line_number, start: s, end: e };
        proof {
            assert(spec_trim_start(line@, s as int, e as int) == s as int);
            assert(spec_trim_end(line@, s as int, e as int) == e as int);
        }
        r
    }

    /// A copy of the bytes the span covers.
    pub fn as_str(&self, line: &Vec<u8>) -> (r: Vec<u8>)
        requires
            self.wf(line@),
        ensures
            r@ == self.text(line@),
    {
        let mut out: Vec<u8> = Vec::new();
        let mut i = self.start;
        while i < self.end
            invariant
                self.wf(line@),
                self.start <= i <= self.end,
                out@ == line@.subrange(self.start as int, i as int),
            decreases self.end - i,
        {
            out.push(line[i]);
            proof {
                assert(line@.subrange(self.start as int, i + 1) =~= line@.subrange(
                    self.start as int,
                    i as int,
                ).push(line@[i as int]));
            }
            i = i + 1;
        }
        proof {
            assert(out@ =~= self.text(line@));
        }
        out
    }

    /// Split on the first occurrence of `c`: the part before it and, when it
    /// occurs, the one-byte span of `c` itself and the part after it.
    pub fn split_on(&self, line: &Vec<u8>, c: u8) -> (r: (Fragment, Option<(Fragment, Fragment)>))
        requires
            self.wf(line@),
        ensures
            r.0.wf(line@),
            match r.1 {
                Some((b, rest)) => b.wf(line@) && rest.wf(line@),
                None => true,
            },
            match spec_find(line@, self.start as int, self.end as int, c) {
                None => r == (*self, None::<(Fragment, Fragment)>),
                Some(i) => r == (
                    Fragment { line_number: self.line_number, start: self.start, end: i as usize },
                    Some(
                        (
                            Fragment {
                                line_number: self.line_number,
                                start: i as usize,
                                end: (i + 1) as usize,
                            },
                            Fragment {
                                line_number: self.line_number,
                                start: (i + 1) as usize,
                                end: self.end,
                            },
                        ),
                    ),
                ),
            },
    {
        let mut i = self.start;
        while i < self.end && line[i] != c
            invariant
                self.wf(line@),
                self.start <= i <= self.end,
                spec_find(line@, self.start as int, self.end as int, c) == spec_find(
                    line@,
                    i as int,
                    self.end as int,
                    c,
                ),
            decreases self.end - i,
        {
            i = i + 1;
        }
        if i < self.end {
            (
                Fragment { line_number: self.line_number, start: self.start, end: i },
                Some(
                    (
                        Fragment { line_number: self.line_number, start: i, end: i + 1 },
                        Fragment { line_number: self.line_number, start: i + 1, end: self.end },
                    ),
                ),
            )
        } else {
            (*self, None)
        }
    }
}

/// The fixed set of assembly error messages.
#[derive(Debug, Copy, Clone, PartialEq, Eq, Structural)]
pub enum ErrorMessage {
    InvalidInstruction,
    ExpectedNoArguments,
    ExpectedOneArgument,
    ExpectedTwoArguments,
    ExpectedThreeArguments,
    MissingArgument,
    InvalidDisk,
    InvalidRegister,
    InvalidNumber,
    InvalidName,
    InvalidConstant,
    InvalidValue,
    MissingByte,
    ByteValueTooLarge,
    MissingOffset,
    MissingLabel,
    InvalidLabel,
    UndefinedLabel,
}

impl ErrorMessage {
    /// The message's text, as the command line prints it.
    pub fn as_str(&self) -> &'static str {
        match self {
            ErrorMessage::InvalidInstruction => "invalid instruction",
            ErrorMessage::ExpectedNoArguments => "expected no arguments",
            ErrorMessage::ExpectedOneArgument => "expected one argument",
            ErrorMessage::ExpectedTwoArguments => "expected two arguments",
            ErrorMessage::ExpectedThreeArguments => "expected three arguments",
            ErrorMessage::MissingArgument => "missing argument",
            ErrorMessage::InvalidDisk => "invalid disk",
            ErrorMessage::InvalidRegister => "invalid register",
            ErrorMessage::InvalidNumber => "invalid number",
            ErrorMessage::InvalidName => "invalid name",
            ErrorMessage::InvalidConstant => "invalid constant",
            ErrorMessage::InvalidValue => "invalid value",
            ErrorMessage::MissingByte => "missing byte",
            ErrorMessage::ByteValueTooLarge => "byte value too large",
            ErrorMessage::MissingOffset => "missing offset",
            ErrorMessage::MissingLabel => "missing label",
            ErrorMessage::InvalidLabel => "invalid label",
            ErrorMessage::UndefinedLabel => "undefined label",
        }
    }
}

/// An assembly error: a source span and a message from the fixed set.
#[derive(Debug, Copy, Clone, PartialEq, Eq, Structural)]
pub struct Error {
    pub fragment: Fragment,
    pub message: ErrorMessage,
}

impl Error {
    /// Prefer this error unless its span is empty, in which case report
    /// `other` instead.
    pub open spec fn spec_or(self, other: Error) -> Error {
        if self.fragment.spec_len() <= 0 {
            other
        } else {
            self
        }
    }

    pub fn or(&self, other: Error) -> (r: Error)
        ensures
            r == self.spec_or(other),
    {
        if self.fragment.start >= self.fragment.end {
            other
        } else {
            *self
        }
    }
}

} // verus!
