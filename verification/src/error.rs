//! Lexical error records. Failures to open or read the source are fatal to
//! a lexing run; a malformed token is recorded here and scanning continues.

use vstd::prelude::*;
use vstd::string::*;
use crate::decimal::{dec_rep, usize_to_string};
use crate::lexeme::Range;

verus! {

#[derive(Debug, PartialEq, Clone)]
pub enum LexerError {
    CouldNotReadLine(usize),
    CouldNotOpenFile(String),
    TokenError(Range),
}

impl LexerError {
    /// True unless the positions mentioned by the message would overflow a
    /// machine integer when shifted to one-based counting.
    pub open spec fn msg_fits(self) -> bool {
        match self {
            LexerError::CouldNotReadLine(_) => true,
            LexerError::CouldNotOpenFile(_) => true,
            LexerError::TokenError(r) => r.line + 1 <= usize::MAX && r.char_begin + 1
                <= usize::MAX,
        }
    }

    /// The human-readable message for this error. Line and column are
    /// reported one-based; the range end is reported as an inclusive column.
    pub open spec fn spec_msg(self) -> Seq<char> {
        match self {
            LexerError::CouldNotReadLine(n) => "Could not read line "@ + dec_rep(n as nat),
            LexerError::CouldNotOpenFile(f) => "Could not open file "@ + f@,
            LexerError::TokenError(r) => "Error reading token at "@ + dec_rep((r.line + 1) as nat)
                + ":"@ + dec_rep((r.char_begin + 1) as nat) + "-"@ + dec_rep(r.char_end as nat),
        }
    }

    pub fn get_msg(&self) -> (r: String)
        requires
            self.msg_fits(),
        ensures
            r@ == self.spec_msg(),
    {
        match self {
            LexerError::CouldNotReadLine(n) => {
                let mut s = String::from_str("Could not read line ");
                let num = usize_to_string(*n);
                s.append(num.as_str());
                s
            },
            LexerError::CouldNotOpenFile(f) => {
                let mut s = String::from_str("Could not open file ");
                s.append(f.as_str());
                s
            },
            LexerError::TokenError(range) => {
                let mut s = String::from_str("Error reading token at ");
                let line = usize_to_string(range.line + 1);
                s.append(line.as_str());
                s.append(":");
                let begin = usize_to_string(range.char_begin + 1);
                s.append(begin.as_str());
                s.append("-");
                let end = usize_to_string(range.char_end);
                s.append(end.as_str());
                s
            },
        }
    }
}

} // verus!
