//! Entry points for fuzzing: parsers that have to take any input.

use vstd::prelude::*;
use vstd::string::*;

use crate::error;
use crate::mail::address;
use crate::mail::parse;

verus! {

/// Runs the message parser.
pub fn parse_mail(bytes: &[u8]) {
    let _ = parse::parse(bytes);
}

/// Runs the SMTP path parser. What is wrong with a path is told in words.
pub fn parse_smtp_path(input: &str) -> (r: Result<(), String>)
    ensures
        r is Ok == address::split_path(input@) is Some,
        r matches Err(m) ==> m@ == "smtp protocol error: "@ + "unterminated <...> in path"@,
{
    match address::parse_path(input) {
        Ok(_) => Ok(()),
        Err(e) => Err(e.message()),
    }
}

} // verus!
