use vstd::prelude::*;
use vstd::string::StringExecFns;

verus! {

/// The package's name.
pub fn name() -> (r: &'static str)
    ensures
        r@ == "recall"@,
{
    "recall"
}

/// The package's version.
pub fn version() -> (r: &'static str)
    ensures
        r@ == "0.1.0"@,
{
    "0.1.0"
}

/// The package's authors; the package names none.
pub fn author() -> (r: &'static str)
    ensures
        r@ == ""@,
{
    ""
}

/// The package's description; the package gives none.
pub fn description() -> (r: &'static str)
    ensures
        r@ == ""@,
{
    ""
}

/// A command written as inline code in a hint: set between backticks.
pub fn inline_code(code: &str) -> (r: String)
    ensures
        r@ == seq!['`'] + code@ + seq!['`'],
{
    let r = String::from_str("`").concat(code).concat("`");
    proof {
        reveal_strlit("`");
    }
    r
}

/// A failure that aborts a command, with the message shown to the user.
#[derive(Debug)]
pub struct RecallError {
    pub message: &'static str,
}

impl RecallError {
    pub fn new(message: &'static str) -> (r: RecallError)
        ensures
            r.message == message,
    {
        RecallError { message }
    }
}

/// The study command: it takes a deck's name and has no behaviour of its own.
#[derive(Debug)]
pub struct Dispatcher;

} // verus!
