//! Which program this process was started to be.

use crate::text::{same_text};
use vstd::prelude::*;

verus! {

/// The flag that turns this executable into the reporter.
pub const FLAG: &'static str = "--crash-report";

/// What this process was started to do.
#[derive(Clone, Debug, PartialEq, Eq)]
pub enum Launch {
    /// Umber, as usual.
    Normal,
    /// The crash reporter, over the report at this path.
    Report(String),
}

/// The first argument at or after `from` that is the flag.
pub open spec fn flag_index(args: Seq<String>, from: int) -> int
    decreases args.len() - from,
{
    if 0 <= from < args.len() && args[from]@ != FLAG@ {
        flag_index(args, from + 1)
    } else {
        from
    }
}

/// The path behind the flag, where there is one. The first argument is the
/// program's own name and is never the flag.
pub open spec fn report_argument(args: Seq<String>) -> Option<Seq<char>> {
    let at = flag_index(args, 1);
    if at + 1 < args.len() {
        Some(args[at + 1]@)
    } else {
        None
    }
}

/// Read the command line.
///
/// An argument that is not recognised is ignored, not refused: refusing to
/// start a painting application over a stray word would be a far worse failure
/// than starting normally. What follows the flag is a path, whatever it looks
/// like.
pub fn parse_args(args: &Vec<String>) -> (r: Launch)
    ensures
        match r {
            Launch::Normal => report_argument(args@) is None,
            Launch::Report(path) => report_argument(args@) == Some(path@),
        },
{
    let mut i: usize = 1;
    while i < args.len()
        invariant
            1 <= i,
            args@.len() > 0 ==> i <= args@.len(),
            flag_index(args@, 1) == flag_index(args@, i as int),
        decreases args@.len() - i,
    {
        if same_text(args[i].as_str(), FLAG) {
            return if i < args.len() - 1 {
                Launch::Report(args[i + 1].clone())
            } else {
                Launch::Normal
            };
        }
        i += 1;
    }
    Launch::Normal
}

proof fn lemma_flag_index(args: Seq<String>, from: int)
    requires
        0 <= from <= args.len(),
    ensures
        from <= flag_index(args, from) <= args.len(),
        flag_index(args, from) < args.len() ==> args[flag_index(args, from)]@ == FLAG@,
        forall|i: int| from <= i < flag_index(args, from) ==> (#[trigger] args[i])@ != FLAG@,
    decreases args.len() - from,
{
    if from < args.len() && args[from]@ != FLAG@ {
        lemma_flag_index(args, from + 1);
    }
}

/// A process is a reporter just if it was handed `--crash-report` with something after
/// it, which is then the report; the program's own name is no argument, and of several
/// flags the first is the one that counts.
pub proof fn the_report_follows_its_flag(args: Seq<String>, i: int)
    requires
        1 <= i < args.len(),
        forall|j: int| 1 <= j < i ==> (#[trigger] args[j])@ != "--crash-report"@,
    ensures
        args[i]@ == "--crash-report"@ && i + 1 < args.len() ==> report_argument(args) == Some(
            args[i + 1]@,
        ),
        args[i]@ == "--crash-report"@ && i + 1 == args.len() ==> report_argument(args) is None,
        args[i]@ != "--crash-report"@ && i + 1 == args.len() ==> report_argument(args) is None,
{
    lemma_flag_index(args, 1);
    let at = flag_index(args, 1);
    if at < i {
        assert(args[at]@ != "--crash-report"@);
    }
}

} // verus!
