//! How the program is started.

use vstd::prelude::*;

verus! {

/// The program was not started as it should be.
#[derive(Clone, Copy, Debug, PartialEq, Eq)]
pub enum UsageError {
    /// More was given than the directory of the notes.
    InvalidArguments,
}

/// The directory that holds the notes, for this command line.
pub open spec fn directory_for(args: Seq<Seq<char>>) -> Result<Seq<char>, UsageError> {
    if args.len() == 1 {
        Ok("."@)
    } else if args.len() == 2 {
        Ok(args[1])
    } else {
        Err(UsageError::InvalidArguments)
    }
}

/// The directory that holds the notes. `args` is the command line, the
/// program's own name first: with nothing behind it the notes are in the
/// current directory, with one argument they are where it says, and
/// anything else is an error.
pub fn notes_directory(args: &Vec<String>) -> (found: Result<String, UsageError>)
    ensures
        match found {
            Ok(dir) => directory_for(args.deep_view()) == Ok::<Seq<char>, UsageError>(dir@),
            Err(e) => directory_for(args.deep_view()) == Err::<Seq<char>, UsageError>(e),
        },
{
    if args.len() == 1 {
        Ok(".".to_owned())
    } else if args.len() == 2 {
        Ok(args[1].clone())
    } else {
        Err(UsageError::InvalidArguments)
    }
}

} // verus!
