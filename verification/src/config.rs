//! The switches of one run, read once from the command line.

use vstd::prelude::*;
use vstd::string::StringExecFns;

verus! {

/// The switches of one run.
#[derive(Clone, Copy, Debug, PartialEq, Eq, Structural)]
pub struct Config {
    /// Say what the tool is doing.
    pub trace_log: bool,
    /// Scan one directory at a time.
    pub slow_mode: bool,
    /// Scan the configured directories, not the usual ones.
    pub manual_mode: bool,
    /// Name every directory and entry as it is seen.
    pub logging: bool,
}

/// True when `arg` is the switch written `short` or `long`.
pub open spec fn names(arg: Seq<char>, short: Seq<char>, long: Seq<char>) -> bool {
    arg == short || arg == long
}

/// True when one of the arguments is the switch written `short` or `long`.
pub open spec fn asked(args: Seq<String>, short: Seq<char>, long: Seq<char>) -> bool {
    exists|i: int| 0 <= i < args.len() && names(#[trigger] args[i]@, short, long)
}

/// The switches that the arguments ask for.
pub open spec fn switches(args: Seq<String>) -> Config {
    Config {
        trace_log: asked(args, "-t"@, "--trace"@),
        slow_mode: asked(args, "-s"@, "--slow-mode"@),
        manual_mode: asked(args, "-m"@, "--manual"@),
        logging: asked(args, "-l"@, "--log"@),
    }
}

fn is_switch(arg: &String, short: &str, long: &str) -> (r: bool)
    ensures
        r == names(arg@, short@, long@),
{
    let short = String::from_str(short);
    let long = String::from_str(long);
    *arg == short || *arg == long
}

/// Reads the switches from the arguments of the program.
///
/// Gives `None` where help is asked for, by `-h` or `--help` anywhere among
/// the arguments. Arguments that are no switch are passed over.
pub fn read_args(args: &Vec<String>) -> (r: Option<Config>)
    ensures
        r == if asked(args@, "-h"@, "--help"@) {
            None
        } else {
            Some(switches(args@))
        },
{
    let mut config = Config { trace_log: false, slow_mode: false, manual_mode: false, logging: false };
    let mut i: usize = 0;
    while i < args.len()
        invariant
            i <= args.len(),
            !asked(args@.take(i as int), "-h"@, "--help"@),
            config == switches(args@.take(i as int)),
        decreases args.len() - i,
    {
        let arg = &args[i];
        let ghost seen = args@.take(i as int);
        let ghost more = args@.take(i + 1);
        proof {
            assert(more =~= seen.push(*arg));
            lemma_asked_push(seen, *arg, "-h"@, "--help"@);
            lemma_asked_push(seen, *arg, "-t"@, "--trace"@);
            lemma_asked_push(seen, *arg, "-s"@, "--slow-mode"@);
            lemma_asked_push(seen, *arg, "-m"@, "--manual"@);
            lemma_asked_push(seen, *arg, "-l"@, "--log"@);
        }
        if is_switch(arg, "-h", "--help") {
            proof {
                lemma_asked_prefix(args@, i + 1, "-h"@, "--help"@);
            }
            return None;
        }
        if is_switch(arg, "-t", "--trace") {
            config.trace_log = true;
        }
        if is_switch(arg, "-s", "--slow-mode") {
            config.slow_mode = true;
        }
        if is_switch(arg, "-m", "--manual") {
            config.manual_mode = true;
        }
        if is_switch(arg, "-l", "--log") {
            config.logging = true;
        }
        i += 1;
    }
    assert(args@.take(args.len() as int) =~= args@);
    Some(config)
}

/// One more argument asks for a switch if it is that switch, or if an
/// argument before it was.
pub proof fn lemma_asked_push(args: Seq<String>, arg: String, short: Seq<char>, long: Seq<char>)
    ensures
        asked(args.push(arg), short, long) == (asked(args, short, long) || names(arg@, short, long)),
{
    let more = args.push(arg);
    if asked(args, short, long) {
        let i = choose|i: int| 0 <= i < args.len() && names(#[trigger] args[i]@, short, long);
        assert(names(more[i]@, short, long));
    }
    if names(arg@, short, long) {
        assert(names(more[args.len() as int]@, short, long));
    }
    if asked(more, short, long) {
        let i = choose|i: int| 0 <= i < more.len() && names(#[trigger] more[i]@, short, long);
        if i < args.len() {
            assert(names(args[i]@, short, long));
        }
    }
}

/// What the first arguments ask for, all of them ask for.
pub proof fn lemma_asked_prefix(args: Seq<String>, n: int, short: Seq<char>, long: Seq<char>)
    requires
        0 <= n <= args.len(),
        asked(args.take(n), short, long),
    ensures
        asked(args, short, long),
{
    let part = args.take(n);
    let i = choose|i: int| 0 <= i < part.len() && names(#[trigger] part[i]@, short, long);
    assert(names(args[i]@, short, long));
}

impl Config {
    /// Whether to say what the tool is doing.
    pub fn tracing_enabled(&self) -> (r: bool)
        ensures
            r == self.trace_log,
    {
        self.trace_log
    }

    /// Whether to scan one directory at a time.
    pub fn slow_mode_enabled(&self) -> (r: bool)
        ensures
            r == self.slow_mode,
    {
        self.slow_mode
    }

    /// Whether to scan the configured directories.
    pub fn manual_mode(&self) -> (r: bool)
        ensures
            r == self.manual_mode,
    {
        self.manual_mode
    }

    /// Whether to name every directory and entry as it is seen.
    pub fn log_enabled(&self) -> (r: bool)
        ensures
            r == self.logging,
    {
        self.logging
    }
}

} // verus!
