//! `pwd`: print the current directory.

use crate::machine::{Step, StepView};
use vstd::prelude::*;
use vstd::string::StringExecFns;

verus! {

/// The only step of `pwd`: it prints the current directory on a line.
pub open spec fn pwd_step(cwd: Seq<char>) -> StepView {
    StepView::print(cwd + "\n"@)
}

/// Runs `pwd` in `current_dir`.
pub fn pwd(current_dir: &str) -> (step: Step)
    ensures
        step@ == pwd_step(current_dir@),
{
    let mut output = current_dir.to_owned();
    output.append("\n");
    Step::print(output)
}

} // verus!
