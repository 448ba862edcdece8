use vstd::prelude::*;

verus! {

/// The `Caused by` lines for each cause, in order.
pub open spec fn causes_text(causes: Seq<Seq<char>>) -> Seq<char>
    decreases causes.len(),
{
    if causes.len() == 0 {
        Seq::empty()
    } else {
        causes_text(causes.drop_last()) + "Caused by:\n\t"@ + causes.last() + "\n"@
    }
}

/// An error's message followed by its chain of causes, one per line.
pub fn error_chain(message: &str, causes: &Vec<String>) -> (r: String)
    ensures
        r@ == message@ + "\n\n"@ + causes_text(causes@.map_values(|c: String| c@)),
{
    let ghost cs = causes@.map_values(|c: String| c@);
    let mut out = String::from_str(message);
    out.append("\n\n");
    let mut i: usize = 0;
    while i < causes.len()
        invariant
            0 <= i <= causes.len(),
            cs == causes@.map_values(|c: String| c@),
            out@ == message@ + "\n\n"@ + causes_text(cs.subrange(0, i as int)),
        decreases causes.len() - i,
    {
        out.append("Caused by:\n\t");
        out.append(causes[i].as_str());
        out.append("\n");
        proof {
            let next = cs.subrange(0, i + 1);
            assert(next.drop_last() =~= cs.subrange(0, i as int));
            assert(next.last() == causes@[i as int]@);
        }
        i = i + 1;
    }
    assert(cs.subrange(0, causes@.len() as int) =~= cs);
    out
}

/// How a long-running task ended.
#[derive(Debug, Clone, Copy, PartialEq, Eq, Structural)]
pub enum TaskOutcome {
    /// It returned normally.
    Exited,
    /// It returned an error.
    Failed,
    /// It panicked or was cancelled.
    DidNotComplete,
}

impl TaskOutcome {
    /// Whether the outcome is a failure worth reporting as an error.
    pub fn is_error(&self) -> (r: bool)
        ensures
            r == !(*self == TaskOutcome::Exited),
    {
        match self {
            TaskOutcome::Exited => false,
            _ => true,
        }
    }
}

/// The line reported when the task named `task_name` ends.
pub fn exit_report(task_name: &str, outcome: TaskOutcome) -> (r: String)
    ensures
        r@ == task_name@ + match outcome {
            TaskOutcome::Exited => " has exited"@,
            TaskOutcome::Failed => " failed"@,
            TaskOutcome::DidNotComplete => " task failed to complete"@,
        },
{
    let mut line = String::from_str(task_name);
    match outcome {
        TaskOutcome::Exited => line.append(" has exited"),
        TaskOutcome::Failed => line.append(" failed"),
        TaskOutcome::DidNotComplete => line.append(" task failed to complete"),
    }
    line
}

} // verus!
