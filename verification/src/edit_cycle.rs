//! One edit of one note: decrypt it to the scratch file, hand the terminal
//! to the editor, take the terminal back, encrypt the scratch file over the
//! note.
//!
//! The cycle does none of this itself. It says which step comes next, given
//! how the last one went.

use vstd::prelude::*;

verus! {

/// A step of the cycle, or its end.
#[derive(Debug, Clone, Copy, PartialEq, Eq, Structural)]
pub enum Stage {
    /// Decrypt the note to the scratch file.
    Decrypt,
    /// Suspend the terminal session.
    Suspend,
    /// Run the editor on the scratch file and wait for it.
    Edit,
    /// Resume the terminal session.
    Resume,
    /// Encrypt the scratch file over the note.
    Encrypt,
    /// The note was edited and encrypted again.
    Done,
    /// The cycle was given up at a step that failed.
    Aborted,
}

/// The stage after `stage`, when that step went as `succeeded` says.
///
/// A note that cannot be decrypted is not edited. A terminal that cannot be
/// fully given up does not keep the editor from running, and whatever
/// becomes of the editor, the terminal is taken back. A terminal that
/// cannot be taken back ends the cycle; otherwise the scratch file is
/// encrypted whether or not the editor did well.
pub open spec fn next_stage_spec(stage: Stage, succeeded: bool) -> Stage {
    match stage {
        Stage::Decrypt => if succeeded {
            Stage::Suspend
        } else {
            Stage::Aborted
        },
        Stage::Suspend => Stage::Edit,
        Stage::Edit => Stage::Resume,
        Stage::Resume => if succeeded {
            Stage::Encrypt
        } else {
            Stage::Aborted
        },
        Stage::Encrypt => if succeeded {
            Stage::Done
        } else {
            Stage::Aborted
        },
        Stage::Done => Stage::Done,
        Stage::Aborted => Stage::Aborted,
    }
}

/// Whether the cycle is over.
pub open spec fn is_final(stage: Stage) -> bool {
    stage == Stage::Done || stage == Stage::Aborted
}

/// The stage that the cycle reaches from `stage` when its steps go as
/// `outcomes` say, one after the other.
pub open spec fn stage_after(stage: Stage, outcomes: Seq<bool>) -> Stage
    decreases outcomes.len(),
{
    if outcomes.len() == 0 {
        stage
    } else {
        stage_after(next_stage_spec(stage, outcomes[0]), outcomes.skip(1))
    }
}

impl Stage {
    /// The first stage of a cycle.
    pub fn first() -> (stage: Stage)
        ensures
            stage == Stage::Decrypt,
    {
        Stage::Decrypt
    }

    /// Whether the cycle is over.
    pub fn is_over(&self) -> (over: bool)
        ensures
            over == is_final(*self),
    {
        match self {
            Stage::Done | Stage::Aborted => true,
            _ => false,
        }
    }

    /// The stage that follows, given how this one went.
    pub fn next(&self, succeeded: bool) -> (stage: Stage)
        ensures
            stage == next_stage_spec(*self, succeeded),
    {
        match self {
            Stage::Decrypt => if succeeded {
                Stage::Suspend
            } else {
                Stage::Aborted
            },
            Stage::Suspend => Stage::Edit,
            Stage::Edit => Stage::Resume,
            Stage::Resume => if succeeded {
                Stage::Encrypt
            } else {
                Stage::Aborted
            },
            Stage::Encrypt => if succeeded {
                Stage::Done
            } else {
                Stage::Aborted
            },
            Stage::Done => Stage::Done,
            Stage::Aborted => Stage::Aborted,
        }
    }
}

/// Every cycle is over after five steps, and stays over.
pub proof fn lemma_cycle_ends(outcomes: Seq<bool>)
    requires
        outcomes.len() >= 5,
    ensures
        is_final(stage_after(Stage::Decrypt, outcomes)),
{
    reveal_with_fuel(stage_after, 6);
    let five = stage_after(Stage::Decrypt, outcomes.subrange(0, 5));
    lemma_stage_after_split(Stage::Decrypt, outcomes, 5);
    assert(is_final(five));
    lemma_final_stays(five, outcomes.skip(5));
}

/// Going through `outcomes` is going through its first `n` and then the rest.
proof fn lemma_stage_after_split(stage: Stage, outcomes: Seq<bool>, n: int)
    requires
        0 <= n <= outcomes.len(),
    ensures
        stage_after(stage, outcomes) == stage_after(
            stage_after(stage, outcomes.subrange(0, n)),
            outcomes.skip(n),
        ),
    decreases n,
{
    if n == 0 {
        assert(outcomes.skip(0) =~= outcomes);
    } else {
        let next = next_stage_spec(stage, outcomes[0]);
        lemma_stage_after_split(next, outcomes.skip(1), n - 1);
        assert(outcomes.skip(1).subrange(0, n - 1) =~= outcomes.subrange(0, n).skip(1));
        assert(outcomes.skip(1).skip(n - 1) =~= outcomes.skip(n));
    }
}

/// A cycle that is over stays as it is.
proof fn lemma_final_stays(stage: Stage, outcomes: Seq<bool>)
    requires
        is_final(stage),
    ensures
        stage_after(stage, outcomes) == stage,
    decreases outcomes.len(),
{
    if outcomes.len() > 0 {
        lemma_final_stays(stage, outcomes.skip(1));
    }
}

/// The scratch file is encrypted over the note exactly when the note was
/// decrypted and the terminal was taken back: neither the suspension nor
/// the editor has a say.
pub proof fn lemma_encrypt_reached(decrypted: bool, suspended: bool, edited: bool, resumed: bool)
    ensures
        stage_after(Stage::Decrypt, seq![decrypted, suspended, edited, resumed]) == (if decrypted
            && resumed {
            Stage::Encrypt
        } else {
            Stage::Aborted
        }),
{
    reveal_with_fuel(stage_after, 6);
}

/// Once the terminal is to be given up, the editor is run and the terminal
/// is taken back, whatever happens on the way.
pub proof fn lemma_suspend_is_undone(suspended: bool, edited: bool)
    ensures
        stage_after(Stage::Suspend, seq![suspended]) == Stage::Edit,
        stage_after(Stage::Suspend, seq![suspended, edited]) == Stage::Resume,
{
    reveal_with_fuel(stage_after, 4);
}

} // verus!
