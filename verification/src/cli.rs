//! The command line: the program's name and the path of the catalog file.

use std::path::PathBuf;
use vstd::prelude::*;

verus! {

/// `std::path::PathBuf`, carried through as it is.
#[verifier::external_type_specification]
#[verifier::external_body]
pub struct ExPathBuf(PathBuf);

/// The path that `PathBuf::from` makes of a string.
pub uninterp spec fn path_of(text: Seq<char>) -> PathBuf;

/// Makes a path of a string, by `PathBuf::from`: the path depends on the
/// characters of the string and on nothing else.
#[verifier::external_body]
fn path_from(text: &String) -> (path: PathBuf)
    ensures
        path == path_of(text@),
{
    PathBuf::from(text)
}

/// The arguments that the program was started with.
pub struct Cli {
    pub file_path: PathBuf,
}

impl Cli {
    /// Takes the catalog's path from the arguments: the program's name,
    /// then the path, and nothing more.
    pub fn build(args: &[String]) -> (res: Result<Cli, &'static str>)
        ensures
            res is Ok <==> args@.len() == 2,
            res matches Ok(cli) ==> cli.file_path == path_of(args@[1]@),
            res matches Err(message) ==> message@ == "incorrect number of arguments provided"@,
    {
        if args.len() != 2 {
            return Err("incorrect number of arguments provided");
        }
        let file_path = path_from(&args[1]);

        Ok(Cli { file_path })
    }
}

} // verus!
