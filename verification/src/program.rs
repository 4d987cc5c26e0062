//! A typed command line: the submitted input split into the program's name
//! and its arguments. Spawning the process belongs to the caller; this type
//! only carries the decision of which word names the program.
use vstd::prelude::*;

verus! {

/// A program name together with its argument words.
#[derive(Debug)]
pub struct Program<'a> {
    /// The word naming the program to run.
    pub name: &'a str,
    /// The remaining words, in order.
    pub arguments: Vec<&'a str>,
}

impl<'a> Program<'a> {
    pub fn new(name: &'a str, arguments: Vec<&'a str>) -> (p: Program<'a>)
        ensures
            p.name == name,
            p.arguments == arguments,
    {
        Program { name, arguments }
    }

    /// Splits a word list into a program: the first word is the name, the
    /// rest are its arguments. An empty list names no program and is
    /// rejected.
    pub fn from_args(arguments: Vec<&'a str>) -> (r: Result<Program<'a>, &'static str>)
        ensures
            r is Err <==> arguments@.len() == 0,
            r matches Ok(p) ==> p.name == arguments@[0] && p.arguments@ == arguments@.skip(1),
            r matches Err(m) ==> m@ == "Cannot build program from empty string"@,
    {
        let mut arguments = arguments;
        if arguments.len() < 1 {
            return Err("Cannot build program from empty string");
        }
        let ghost before = arguments@;
        let name = arguments.remove(0);
        proof {
            assert(before.remove(0) =~= before.skip(1));
        }
        Ok(Program { name, arguments })
    }
}

} // verus!
