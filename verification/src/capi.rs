//! What the C API of the library gives to its callers, as plain values: the
//! result codes, their messages and the version.
//!
//! The strings end with a nul, so that a binding can hand out a pointer to
//! their first byte as a C string.

use vstd::prelude::*;

verus! {

/// Nul-terminated version number for ease of C binding.
pub const VERSION: &'static str = "0.0.0\0";

/// Result of an operation, as the C API reports it.
///
/// These stay in sync with the C result enums: see [`RsResult::code`].
#[derive(Debug, Copy, Clone)]
pub enum RsResult {
    /// Completed successfully.
    Done,
    /// Blocked waiting for more data.
    Blocked,
    /// The job is still running, and not yet finished or blocked.
    Running,
    /// Test neither passed or failed.
    TestSkipped,
    /// Error in file or network IO.
    IoError,
    /// Command line syntax error.
    SyntaxError,
    /// Out of memory.
    MemError,
    /// Unexpected end of input file, perhaps due to a truncated file or
    /// dropped network connection.
    InputEnded,
    /// Bad magic number at start of stream. Probably not a librsync file, or
    /// possibly the wrong kind of file or from an incompatible library
    /// version.
    BadMagic,
    /// Author is lazy.
    Unimplemented,
    /// Unbelievable value in stream.
    Corrupt,
    /// Probably a library bug.
    InternalError,
    /// Bad value passed in to library, probably an application bug.
    ParamErorr,
}

impl RsResult {
    /// The number that stands for the result in C.
    pub open spec fn spec_code(self) -> i32 {
        match self {
            RsResult::Done => 0,
            RsResult::Blocked => 1,
            RsResult::Running => 2,
            RsResult::TestSkipped => 77,
            RsResult::IoError => 100,
            RsResult::SyntaxError => 101,
            RsResult::MemError => 102,
            RsResult::InputEnded => 103,
            RsResult::BadMagic => 104,
            RsResult::Unimplemented => 105,
            RsResult::Corrupt => 106,
            RsResult::InternalError => 107,
            RsResult::ParamErorr => 108,
        }
    }

    /// The number that stands for the result in C.
    #[verifier::when_used_as_spec(spec_code)]
    pub fn code(self) -> (code: i32)
        ensures
            code == self.spec_code(),
    {
        match self {
            RsResult::Done => 0,
            RsResult::Blocked => 1,
            RsResult::Running => 2,
            RsResult::TestSkipped => 77,
            RsResult::IoError => 100,
            RsResult::SyntaxError => 101,
            RsResult::MemError => 102,
            RsResult::InputEnded => 103,
            RsResult::BadMagic => 104,
            RsResult::Unimplemented => 105,
            RsResult::Corrupt => 106,
            RsResult::InternalError => 107,
            RsResult::ParamErorr => 108,
        }
    }
}

/// The message for a result, with the nul at its end: `"OK"` for
/// [`RsResult::Done`], and one message for all the others.
pub open spec fn strerror_text(r: RsResult) -> Seq<char> {
    match r {
        RsResult::Done => "OK\0"@,
        _ => "unexplained problem\0"@,
    }
}

/// The version of the library, with a nul at its end.
pub fn rs_version() -> (version: &'static str)
    ensures
        version@ == VERSION@,
        version@ == crate::VERSION@.push('\0'),
{
    proof {
        reveal_strlit("0.0.0\0");
        reveal_strlit("0.0.0");
        assert(VERSION@ =~= crate::VERSION@.push('\0'));
    }
    VERSION
}

/// The message that describes the result `r`, with a nul at its end.
pub fn rs_strerror(r: RsResult) -> (message: &'static str)
    ensures
        message@ == strerror_text(r),
        message@.len() > 0,
        message@.last() == '\0',
{
    proof {
        reveal_strlit("OK\0");
        reveal_strlit("unexplained problem\0");
    }
    match r {
        RsResult::Done => "OK\0",
        _ => "unexplained problem\0",
    }
}

} // verus!
