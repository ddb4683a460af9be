use vstd::prelude::*;

verus! {

/// One external invocation to make: a program name and its argument list.
pub struct CommandSpec {
    pub program: String,
    pub args: Vec<String>,
}

/// What one external invocation produced: the exit code and both captured
/// output streams, decoded to text. Consumed immediately to decide success.
pub struct CommandResult {
    pub exit_code: i32,
    pub stdout: String,
    pub stderr: String,
}

impl CommandResult {
    /// The invocation reported success.
    pub open spec fn succeeded(&self) -> bool {
        self.exit_code == 0
    }
}

} // verus!
