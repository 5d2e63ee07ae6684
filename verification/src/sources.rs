//! Where the sources to read lie: the directory that the arguments of a run
//! name, and the pattern that finds the Java files below it.

use vstd::prelude::*;
use vstd::string::*;
use crate::model::{text_opt, texts};

verus! {

/// The directory that a run with these arguments reads: the current one
/// where the program's name is the only argument, the second argument
/// where there are two, and none otherwise.
pub open spec fn directory_of(args: Seq<Seq<char>>) -> Option<Seq<char>> {
    if args.len() == 1 {
        Some("."@)
    } else if args.len() == 2 {
        Some(args[1])
    } else {
        None
    }
}

/// The directory that a run with these arguments reads.
pub fn directory_from(args: &Vec<String>) -> (directory: Option<String>)
    ensures
        text_opt(directory) == directory_of(texts(args@)),
{
    if args.len() == 1 {
        Some(".".to_owned())
    } else if args.len() == 2 {
        Some(args[1].clone())
    } else {
        None
    }
}

/// The pattern that matches every Java file at any depth below `directory`.
pub fn java_pattern(directory: &str) -> (pattern: String)
    ensures
        pattern@ == directory@ + "/**/*.java"@,
{
    directory.to_owned().concat("/**/*.java")
}

} // verus!
