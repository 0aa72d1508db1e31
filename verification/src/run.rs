use vstd::prelude::*;
use crate::context::{lemma_string_vec_view, outcome, push_line};

verus! {

/// How a run ends once the archive step and the cleanup step are done.
pub struct RunOutcome {
    /// The success banner is printed.
    pub announce_success: bool,
    /// Lines appended to the log, in order.
    pub log_lines: Vec<String>,
    /// What the run returns.
    pub result: Result<(), String>,
}

/// The log lines written after both steps.
pub open spec fn settled_log(
    backup: Result<(), Seq<char>>,
    cleanup: Result<(), Seq<char>>,
) -> Seq<Seq<char>> {
    match (backup, cleanup) {
        (Ok(_), Ok(_)) => seq!["SUCCESS: Backup created"@, "Backup cleanup completed"@],
        (Err(_), Ok(_)) => seq!["Backup cleanup completed"@],
        (Ok(_), Err(c)) => seq![
            "SUCCESS: Backup created"@,
            "Cleanup failed after successful backup: "@ + c,
        ],
        (Err(_), Err(c)) => seq!["Cleanup failed after backup error: "@ + c],
    }
}

/// What the run returns: success when both steps succeeded; otherwise the
/// archive error when there is one, else a message around the cleanup error.
pub open spec fn settled_result(
    backup: Result<(), Seq<char>>,
    cleanup: Result<(), Seq<char>>,
) -> Result<(), Seq<char>> {
    match (backup, cleanup) {
        (Ok(_), Ok(_)) => Ok(()),
        (Err(b), _) => Err(b),
        (Ok(_), Err(c)) => Err("Backup created successfully, but cleanup failed: "@ + c),
    }
}

/// Combines the outcome of the archive step and of the cleanup step (each an
/// error message on failure) into what the run logs, prints and returns.
pub fn settle_run(backup: Result<(), String>, cleanup: Result<(), String>) -> (r: RunOutcome)
    ensures
        r.announce_success == (backup is Ok && cleanup is Ok),
        r.log_lines.deep_view() == settled_log(outcome(backup), outcome(cleanup)),
        outcome(r.result) == settled_result(outcome(backup), outcome(cleanup)),
        r.result is Ok <==> (backup is Ok && cleanup is Ok),
        backup is Err ==> outcome(r.result) == outcome(backup),
        r.log_lines@.len() == (if backup is Ok {
            2int
        } else {
            1int
        }),
        backup is Ok ==> r.log_lines@[0]@ == "SUCCESS: Backup created"@,
        cleanup is Ok ==> r.log_lines@[r.log_lines@.len() - 1]@ == "Backup cleanup completed"@,
        backup is Ok && cleanup is Err ==> r.log_lines@[1]@ == "Cleanup failed after successful backup: "@
            + cleanup->Err_0@,
        backup is Err && cleanup is Err ==> r.log_lines@[0]@ == "Cleanup failed after backup error: "@
            + cleanup->Err_0@,
        backup is Ok && cleanup is Err ==> outcome(r.result) == Err::<(), Seq<char>>(
            "Backup created successfully, but cleanup failed: "@ + cleanup->Err_0@,
        ),
{
    let mut log_lines: Vec<String> = Vec::new();
    match (backup, cleanup) {
        (Ok(()), Ok(())) => {
            push_line(&mut log_lines, String::from_str("SUCCESS: Backup created"));
            push_line(&mut log_lines, String::from_str("Backup cleanup completed"));
            proof { lemma_string_vec_view(&log_lines); }
            RunOutcome { announce_success: true, log_lines, result: Ok(()) }
        },
        (Err(b), Ok(())) => {
            push_line(&mut log_lines, String::from_str("Backup cleanup completed"));
            proof { lemma_string_vec_view(&log_lines); }
            RunOutcome { announce_success: false, log_lines, result: Err(b) }
        },
        (Ok(()), Err(c)) => {
            push_line(&mut log_lines, String::from_str("SUCCESS: Backup created"));
            let mut line = String::from_str("Cleanup failed after successful backup: ");
            line.append(c.as_str());
            push_line(&mut log_lines, line);
            let mut message = String::from_str("Backup created successfully, but cleanup failed: ");
            message.append(c.as_str());
            proof { lemma_string_vec_view(&log_lines); }
            RunOutcome { announce_success: false, log_lines, result: Err(message) }
        },
        (Err(b), Err(c)) => {
            let mut line = String::from_str("Cleanup failed after backup error: ");
            line.append(c.as_str());
            push_line(&mut log_lines, line);
            proof { lemma_string_vec_view(&log_lines); }
            RunOutcome { announce_success: false, log_lines, result: Err(b) }
        },
    }
}

} // verus!
