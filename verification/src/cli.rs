//! Command-line mode dispatch: the argument count alone selects what
//! the program does.

use vstd::prelude::*;

verus! {

/// What a single invocation of the tool does.
#[derive(Clone, Copy, Debug, PartialEq, Eq, Structural)]
pub enum Mode {
    /// No file named: print the usage line and exit.
    Usage,
    /// Only a file named: list the scalar tags available in it.
    ListTags,
    /// File and tag named: chart that tag's series interactively.
    Chart,
}

/// Selects the mode from the number of command-line arguments,
/// the program name included (so a bare invocation has count 1).
pub fn select_mode(arg_count: usize) -> (m: Mode)
    ensures
        m == Mode::Usage <==> arg_count <= 1,
        m == Mode::ListTags <==> arg_count == 2,
        m == Mode::Chart <==> arg_count >= 3,
{
    if arg_count <= 1 {
        Mode::Usage
    } else if arg_count == 2 {
        Mode::ListTags
    } else {
        Mode::Chart
    }
}

} // verus!
