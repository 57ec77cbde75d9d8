//! The run's configuration, read from the command line.

use vstd::prelude::*;
use vstd::string::StringExecFns;

verus! {

/// The default endpoint-list file, used when none is named.
pub open spec fn default_filename() -> Seq<char> {
    "serverlist.txt"@
}

/// What a run needs to know: where the endpoint list is, and how many
/// retries internet-address discovery gets.
#[derive(Debug)]
pub struct Config {
    /// The endpoint-list file.
    pub filename: String,
    /// Retries granted to internet-address discovery beyond the first
    /// attempt.
    pub retries: u8,
}

impl Config {
    /// Reads the configuration from the command-line arguments (the first
    /// being the program's own name): at most one argument, the
    /// endpoint-list file, defaulting when absent.  More than one argument
    /// is an error.
    pub fn new(mut args: Vec<String>) -> (r: Result<Config, &'static str>)
        ensures
            args@.len() > 2 ==> (r matches Err(e) && e@ == "Too many arguments!"@),
            args@.len() == 2 ==> (r matches Ok(c) && c.filename@ == args@[1]@ && c.retries
                == crate::eval::DEFAULT_RETRIES),
            args@.len() <= 1 ==> (r matches Ok(c) && c.filename@ == default_filename() && c.retries
                == crate::eval::DEFAULT_RETRIES),
    {
        if args.len() > 2 {
            return Err("Too many arguments!");
        }
        let filename = if args.len() == 2 {
            args.remove(1)
        } else {
            String::from_str("serverlist.txt")
        };
        Ok(Config { filename, retries: crate::eval::DEFAULT_RETRIES })
    }
}

} // verus!
