//! Yes/no confirmations: when one is skipped, refused or asked.

use crate::commands::client::{accepts, server_switch_confirmed};
use vstd::prelude::*;
use vstd::string::*;

verus! {

/// What a confirmation does before anything is typed.
pub enum ConfirmStep {
    /// `--yes` was given: go on.
    Proceed,
    /// Ask on the terminal.
    Ask,
    /// Fail with this message.
    Refuse(String),
}

/// The message when a confirmation cannot be asked.
pub open spec fn confirmation_required_message() -> Seq<char> {
    "confirmation is required; pass --yes for non-interactive use"@
}

/// `--yes` skips the question; without a terminal it cannot be asked.
pub fn confirm_step(yes: bool, interactive: bool) -> (res: ConfirmStep)
    ensures
        yes ==> res is Proceed,
        !yes && interactive ==> res is Ask,
        !yes && !interactive ==> (res matches ConfirmStep::Refuse(m) && m@
            == confirmation_required_message()),
{
    if yes {
        ConfirmStep::Proceed
    } else if !interactive {
        ConfirmStep::Refuse("confirmation is required; pass --yes for non-interactive use".to_owned())
    } else {
        ConfirmStep::Ask
    }
}

/// The message when a confirmation was answered with anything but yes.
pub open spec fn cancelled_message() -> Seq<char> {
    "operation cancelled"@
}

/// A typed answer goes on when it is `y` or `yes` (any case, surrounding
/// whitespace ignored) and cancels otherwise.
pub fn confirm_answer(answer: &str) -> (res: Result<(), String>)
    ensures
        accepts(answer@) ==> res is Ok,
        !accepts(answer@) ==> (res matches Err(m) && m@ == cancelled_message()),
{
    if server_switch_confirmed(answer) {
        Ok(())
    } else {
        Err("operation cancelled".to_owned())
    }
}

/// The question as shown: the prompt and `[y/N]`.
pub fn confirm_question(prompt: &str) -> (res: String)
    ensures
        res@ == prompt@ + " [y/N] "@,
{
    let mut res = prompt.to_owned();
    res.append(" [y/N] ");
    res
}

} // verus!
