//! What is settled before a session starts.

use vstd::prelude::*;

verus! {

/// What the file system says of the path given as the journal directory.
#[derive(Debug, Clone, Copy, PartialEq, Eq, Structural)]
pub struct PathFacts {
    /// Something is there.
    pub exists: bool,
    /// What is there is a directory.
    pub is_dir: bool,
}

/// Why the program cannot start on the directory it was given.
#[derive(Debug, Clone, Copy, PartialEq, Eq, Structural)]
pub enum DirectoryFault {
    /// No directory was given.
    NotSpecified,
    /// Nothing is there.
    DoesNotExist,
    /// What is there is not a directory.
    NotADirectory,
}

/// The verdict on the journal directory: `facts` is `None` if no path was
/// given. Existence is judged first.
pub open spec fn check_directory_spec(facts: Option<PathFacts>) -> Result<(), DirectoryFault> {
    match facts {
        None => Err(DirectoryFault::NotSpecified),
        Some(facts) => if !facts.exists {
            Err(DirectoryFault::DoesNotExist)
        } else if !facts.is_dir {
            Err(DirectoryFault::NotADirectory)
        } else {
            Ok(())
        },
    }
}

/// Judges the path given as the journal directory.
pub fn check_directory(facts: Option<PathFacts>) -> (verdict: Result<(), DirectoryFault>)
    ensures
        verdict == check_directory_spec(facts),
        verdict is Ok <==> (facts matches Some(found) && found.exists && found.is_dir),
{
    match facts {
        None => Err(DirectoryFault::NotSpecified),
        Some(facts) => {
            if !facts.exists {
                Err(DirectoryFault::DoesNotExist)
            } else if !facts.is_dir {
                Err(DirectoryFault::NotADirectory)
            } else {
                Ok(())
            }
        },
    }
}

} // verus!
