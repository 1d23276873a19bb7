use vstd::prelude::*;

verus! {

/// The configuration of one run: two flags and the ordered list of output
/// file paths. Order matters — files are opened and written in the order
/// given on the command line — and duplicates are kept, each standing for an
/// independent writer.
pub struct Config {
    /// Print the usage text and do nothing else.
    pub help: bool,
    /// Open output files in append mode instead of truncating them.
    pub append: bool,
    /// Output file paths, in command-line order, duplicates kept.
    pub files: Vec<String>,
}

impl Config {
    /// An empty configuration: no flags set, no output files.
    pub fn new() -> (c: Config)
        ensures
            !c.help,
            !c.append,
            c.files@ == Seq::<String>::empty(),
    {
        Config { help: false, append: false, files: Vec::new() }
    }

    /// Whether the help flag was given.
    pub fn is_help_set(&self) -> (r: bool)
        ensures
            r == self.help,
    {
        self.help
    }

    /// Whether the append flag was given.
    pub fn is_append_set(&self) -> (r: bool)
        ensures
            r == self.append,
    {
        self.append
    }
}

/// What a run does for a given configuration.
#[derive(Debug, PartialEq, Eq, Structural)]
pub enum RunAction {
    /// Print the usage text and exit successfully, nothing else.
    ShowHelp,
    /// Open the output files and copy the input to every destination.
    CopyInput,
}

/// Decide what a run with configuration `c` does. The help flag takes
/// priority over everything else: when it is set, the run only prints the
/// usage text — no file is created, truncated or written, and no input is
/// read.
pub fn plan_run(c: &Config) -> (a: RunAction)
    ensures
        a is ShowHelp <==> c.help,
        a is CopyInput <==> !c.help,
{
    if c.help {
        RunAction::ShowHelp
    } else {
        RunAction::CopyInput
    }
}

} // verus!
