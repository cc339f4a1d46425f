//! Selection of the input source from command-line arguments.

use vstd::prelude::*;

verus! {

/// Where the statement lines come from: a file named on the command line,
/// or nowhere recognisable.
#[derive(Debug)]
pub enum Source {
    File(Params),
    Unknown,
}

/// Parameters of a file input source.
#[derive(Debug)]
pub struct Params {
    pub path: String,
}

impl Params {
    /// Reads the input path from the argument list. The first argument is
    /// the program name; the second, when present, is the path.
    pub fn new(args: &[String]) -> (source: Source)
        ensures
            args@.len() < 2 ==> (source matches Source::Unknown),
            args@.len() >= 2 ==> (source matches Source::File(p) && p.path@ == args@[1]@),
    {
        if args.len() < 2 {
            return Source::Unknown;
        }

        Source::File(Params { path: args[1].clone() })
    }
}

} // verus!
