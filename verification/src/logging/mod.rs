use vstd::prelude::*;
use vstd::string::StringExecFns;

verus! {

/// Writes log lines without colours.
#[derive(Clone, Copy)]
pub struct NoColorMsgFormatter;

impl NoColorMsgFormatter {
    /// The formatter, which has no state of its own.
    pub fn new() -> (formatter: Self)
        ensures
            formatter == NoColorMsgFormatter,
    {
        NoColorMsgFormatter
    }

    /// The line for a message: the level and the target, each in square
    /// brackets, then the message.
    pub open spec fn line(level: Seq<char>, target: Seq<char>, msg: Seq<char>) -> Seq<char> {
        seq!['['] + level + seq![']', ' ', '['] + target + seq![']', ' '] + msg
    }

    /// The line for a message.
    pub fn format(&self, level: &str, target: &str, msg: &str) -> (line: String)
        ensures
            line@ == Self::line(level@, target@, msg@),
    {
        let mut line = String::new();
        proof {
            reveal_strlit("[");
            reveal_strlit("] [");
            reveal_strlit("] ");
        }
        line.append("[");
        line.append(level);
        line.append("] [");
        line.append(target);
        line.append("] ");
        line.append(msg);
        assert(line@ =~= Self::line(level@, target@, msg@));
        line
    }
}

} // verus!
