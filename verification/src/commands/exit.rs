//! `clear` and `exit`: the commands that concern the terminal and the shell
//! itself.

use crate::machine::{Next, NextView, Step, StepView};
use vstd::prelude::*;

verus! {

/// The only step of `clear`: it prints the sequence that erases the screen
/// and puts the cursor in the upper left corner.
pub open spec fn clear_step() -> StepView {
    StepView::print("\x1B[2J\x1B[1;1H"@)
}

/// The only step of `exit`: the shell ends.
pub open spec fn exit_step() -> StepView {
    StepView { output: Seq::<char>::empty(), next: NextView::Exit }
}

/// Runs `clear`.
pub fn clear() -> (step: Step)
    ensures
        step@ == clear_step(),
{
    Step::print("\x1B[2J\x1B[1;1H".to_owned())
}

/// Runs `exit`.
pub fn exit() -> (step: Step)
    ensures
        step@ == exit_step(),
{
    Step { output: String::new(), next: Next::Exit }
}

} // verus!
