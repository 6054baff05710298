//! External commands as plain values: what to run, and what came back.
use vstd::prelude::*;

verus! {

/// A program to run and its arguments.
pub struct CommandSpec {
    pub program: String,
    pub args: Vec<String>,
}

/// What a finished command reported: whether it exited successfully, and its
/// raw standard output and standard error.
pub struct CommandOutput {
    pub success: bool,
    pub stdout: Vec<u8>,
    pub stderr: Vec<u8>,
}

/// Builds a command from a program name and its arguments.
pub fn command(program: &str, args: &[&str]) -> (c: CommandSpec)
    ensures
        c.program@ == program@,
        c.args.deep_view() == args.deep_view(),
{
    let mut v: Vec<String> = Vec::new();
    let mut i: usize = 0;
    while i < args.len()
        invariant
            i <= args.len(),
            v.len() == i,
            forall|k: int| 0 <= k < i ==> #[trigger] v@[k]@ == args@[k]@,
        decreases args.len() - i,
    {
        v.push(args[i].to_owned());
        i = i + 1;
    }
    assert(v.deep_view() =~= args.deep_view());
    CommandSpec { program: program.to_owned(), args: v }
}

} // verus!
