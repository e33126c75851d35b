//! What the command line asks of the cache line experiment.
use crate::arguments::{complaint, is_text, parse_u64, parse_usize};
use vstd::prelude::*;

verus! {

use crate::arguments::{decimal_up_to, decimal_value, texts};

/// How often each thread increments its counter where the command line does not say.
pub const DEFAULT_ITERATIONS: u64 = 50_000_000;

/// How many runs are measured where the command line does not say.
pub const DEFAULT_RUNS: usize = 7;

/// The layouts to measure.
#[derive(Clone, Copy, Debug, PartialEq, Eq, Structural)]
pub enum Selection {
    Both,
    Shared,
    Padded,
}

/// How to run the experiment.
#[derive(Clone, Copy, Debug, PartialEq, Eq, Structural)]
pub struct Config {
    /// How often each thread increments its counter.
    pub iterations: u64,
    /// How many runs to measure.
    pub runs: usize,
    /// The layouts to measure.
    pub selection: Selection,
    /// Whether to run each layout once beforehand, unmeasured.
    pub warmup: bool,
}

/// What a command line asks for.
#[derive(Clone, Copy, Debug, PartialEq, Eq, Structural)]
pub enum Request {
    /// Run the experiment.
    Run(Config),
    /// Print the usage.
    Help,
}

/// What becomes of a command line: a request, or a complaint.
#[verifier::ext_equal]
pub enum Reading {
    Accepted(Request),
    Refused(Seq<char>),
}

/// The configuration of an empty command line.
pub open spec fn default_config() -> Config {
    Config {
        iterations: DEFAULT_ITERATIONS,
        runs: DEFAULT_RUNS,
        selection: Selection::Both,
        warmup: true,
    }
}

/// The layouts that the value of `--layout` names.
pub open spec fn selection_named(value: Seq<char>) -> Option<Selection> {
    if value == "both"@ {
        Some(Selection::Both)
    } else if value == "shared"@ {
        Some(Selection::Shared)
    } else if value == "padded"@ {
        Some(Selection::Padded)
    } else {
        None
    }
}

/// How a command line reads, where what came before it set `config`. Options are read
/// from left to right; the first fault or request for help ends the reading.
pub open spec fn reading(config: Config, arguments: Seq<Seq<char>>) -> Reading
    decreases arguments.len(),
{
    if arguments.len() == 0 {
        Reading::Accepted(Request::Run(config))
    } else {
        let name = arguments[0];
        let rest = arguments.skip(1);
        if name == "--iterations"@ {
            if rest.len() == 0 {
                Reading::Refused("--iterations requires a positive integer"@)
            } else {
                match decimal_up_to(rest[0], u64::MAX as nat) {
                    None => Reading::Refused("invalid --iterations value: "@ + rest[0]),
                    Some(iterations) if iterations == 0 => Reading::Refused(
                        "--iterations must be greater than zero"@,
                    ),
                    Some(iterations) => reading(
                        Config { iterations: iterations as u64, ..config },
                        rest.skip(1),
                    ),
                }
            }
        } else if name == "--runs"@ {
            if rest.len() == 0 {
                Reading::Refused("--runs requires a positive integer"@)
            } else {
                match decimal_up_to(rest[0], usize::MAX as nat) {
                    None => Reading::Refused("invalid --runs value: "@ + rest[0]),
                    Some(runs) if runs == 0 => Reading::Refused(
                        "--runs must be greater than zero"@,
                    ),
                    Some(runs) => reading(Config { runs: runs as usize, ..config }, rest.skip(1)),
                }
            }
        } else if name == "--layout"@ {
            if rest.len() == 0 {
                Reading::Refused("--layout requires both, shared, or padded"@)
            } else {
                match selection_named(rest[0]) {
                    None => Reading::Refused("invalid --layout value: "@ + rest[0]),
                    Some(selection) => reading(Config { selection, ..config }, rest.skip(1)),
                }
            }
        } else if name == "--no-warmup"@ {
            reading(Config { warmup: false, ..config }, rest)
        } else if name == "--help"@ || name == "-h"@ {
            Reading::Accepted(Request::Help)
        } else {
            Reading::Refused("unknown argument: "@ + name)
        }
    }
}

/// The layouts that the value of `--layout` names.
fn parse_selection(value: &String) -> (selection: Option<Selection>)
    ensures
        selection == selection_named(value@),
{
    if is_text(value, "both") {
        Some(Selection::Both)
    } else if is_text(value, "shared") {
        Some(Selection::Shared)
    } else if is_text(value, "padded") {
        Some(Selection::Padded)
    } else {
        None
    }
}

impl Config {
    /// Reads the arguments that follow the program's name.
    pub fn parse(arguments: &[String]) -> (parsed: Result<Request, String>)
        ensures
            match parsed {
                Ok(request) => reading(default_config(), texts(arguments@)) == Reading::Accepted(
                    request,
                ),
                Err(message) => reading(default_config(), texts(arguments@)) == Reading::Refused(
                    message@,
                ),
            },
    {
        let mut config = Config {
            iterations: DEFAULT_ITERATIONS,
            runs: DEFAULT_RUNS,
            selection: Selection::Both,
            warmup: true,
        };
        let ghost all = texts(arguments@);
        let mut next: usize = 0;
        assert(all.skip(0) =~= all);

        while next < arguments.len()
            invariant
                next <= arguments.len(),
                all == texts(arguments@),
                reading(default_config(), all) == reading(config, all.skip(next as int)),
            decreases arguments.len() - next,
        {
            let argument: &String = &arguments[next];
            let ghost rest = all.skip(next as int).skip(1);
            assert(rest =~= all.skip(next + 1));
            assert(all.skip(next as int)[0] == argument@);
            next = next + 1;
            if is_text(argument, "--iterations") {
                if next == arguments.len() {
                    return Err("--iterations requires a positive integer".to_owned());
                }
                let value: &String = &arguments[next];
                assert(rest[0] == value@);
                assert(rest.skip(1) =~= all.skip(next + 1));
                next = next + 1;
                match parse_u64(value.as_str()) {
                    None => {
                        return Err(complaint("invalid --iterations value: ", value));
                    },
                    Some(iterations) => {
                        if iterations == 0 {
                            return Err("--iterations must be greater than zero".to_owned());
                        }
                        config.iterations = iterations;
                    },
                }
            } else if is_text(argument, "--runs") {
                if next == arguments.len() {
                    return Err("--runs requires a positive integer".to_owned());
                }
                let value: &String = &arguments[next];
                assert(rest[0] == value@);
                assert(rest.skip(1) =~= all.skip(next + 1));
                next = next + 1;
                match parse_usize(value.as_str()) {
                    None => {
                        return Err(complaint("invalid --runs value: ", value));
                    },
                    Some(runs) => {
                        if runs == 0 {
                            return Err("--runs must be greater than zero".to_owned());
                        }
                        config.runs = runs;
                    },
                }
            } else if is_text(argument, "--layout") {
                if next == arguments.len() {
                    return Err("--layout requires both, shared, or padded".to_owned());
                }
                let value: &String = &arguments[next];
                assert(rest[0] == value@);
                assert(rest.skip(1) =~= all.skip(next + 1));
                next = next + 1;
                match parse_selection(value) {
                    None => {
                        return Err(complaint("invalid --layout value: ", value));
                    },
                    Some(selection) => {
                        config.selection = selection;
                    },
                }
            } else if is_text(argument, "--no-warmup") {
                config.warmup = false;
            } else if is_text(argument, "--help") || is_text(argument, "-h") {
                return Ok(Request::Help);
            } else {
                return Err(complaint("unknown argument: ", argument));
            }
        }

        Ok(Request::Run(config))
    }
}

/// An accepted command line asks for at least one run and at least one iteration.
pub proof fn accepted_counts_are_positive(arguments: Seq<Seq<char>>)
    ensures
        reading(default_config(), arguments) matches Reading::Accepted(Request::Run(config))
            ==> config.runs > 0 && config.iterations > 0,
{
    counts_stay_positive(default_config(), arguments);
}

proof fn counts_stay_positive(config: Config, arguments: Seq<Seq<char>>)
    requires
        config.runs > 0,
        config.iterations > 0,
    ensures
        reading(config, arguments) matches Reading::Accepted(Request::Run(last)) ==> last.runs > 0
            && last.iterations > 0,
    decreases arguments.len(),
{
    if arguments.len() > 0 {
        let name = arguments[0];
        let rest = arguments.skip(1);
        if name == "--iterations"@ && rest.len() > 0 {
            if let Some(iterations) = decimal_up_to(rest[0], u64::MAX as nat) {
                if iterations > 0 {
                    counts_stay_positive(
                        Config { iterations: iterations as u64, ..config },
                        rest.skip(1),
                    );
                }
            }
        } else if name == "--runs"@ && rest.len() > 0 {
            if let Some(runs) = decimal_up_to(rest[0], usize::MAX as nat) {
                if runs > 0 {
                    counts_stay_positive(Config { runs: runs as usize, ..config }, rest.skip(1));
                }
            }
        } else if name == "--layout"@ && rest.len() > 0 {
            if let Some(selection) = selection_named(rest[0]) {
                counts_stay_positive(Config { selection, ..config }, rest.skip(1));
            }
        } else if name == "--no-warmup"@ {
            counts_stay_positive(Config { warmup: false, ..config }, rest);
        }
    }
}

/// A command line whose first part is a request to run reads as its second part does,
/// from the configuration that the first part set.
pub proof fn readings_compose(config: Config, first: Seq<Seq<char>>, second: Seq<Seq<char>>)
    ensures
        reading(config, first) matches Reading::Accepted(Request::Run(middle)) ==> reading(
            config,
            first + second,
        ) == reading(middle, second),
    decreases first.len(),
{
    let whole = first + second;
    if first.len() == 0 {
        assert(whole =~= second);
    } else {
        let name = first[0];
        let rest = first.skip(1);
        assert(whole[0] == name);
        assert(whole.skip(1) =~= rest + second);
        if name == "--iterations"@ && rest.len() > 0 {
            assert(whole.skip(1)[0] == rest[0]);
            assert(whole.skip(1).skip(1) =~= rest.skip(1) + second);
            if let Some(iterations) = decimal_up_to(rest[0], u64::MAX as nat) {
                if iterations > 0 {
                    readings_compose(
                        Config { iterations: iterations as u64, ..config },
                        rest.skip(1),
                        second,
                    );
                }
            }
        } else if name == "--runs"@ && rest.len() > 0 {
            assert(whole.skip(1)[0] == rest[0]);
            assert(whole.skip(1).skip(1) =~= rest.skip(1) + second);
            if let Some(runs) = decimal_up_to(rest[0], usize::MAX as nat) {
                if runs > 0 {
                    readings_compose(
                        Config { runs: runs as usize, ..config },
                        rest.skip(1),
                        second,
                    );
                }
            }
        } else if name == "--layout"@ && rest.len() > 0 {
            assert(whole.skip(1)[0] == rest[0]);
            assert(whole.skip(1).skip(1) =~= rest.skip(1) + second);
            if let Some(selection) = selection_named(rest[0]) {
                readings_compose(Config { selection, ..config }, rest.skip(1), second);
            }
        } else if name == "--no-warmup"@ {
            readings_compose(Config { warmup: false, ..config }, rest, second);
        }
    }
}

/// Whether the reading ended before the end of the command line could: with a request
/// for help, or a complaint other than that a value is missing.
pub open spec fn is_settled(reading: Reading) -> bool {
    match reading {
        Reading::Accepted(Request::Run(_)) => false,
        Reading::Accepted(Request::Help) => true,
        Reading::Refused(message) => {
            &&& message != "--iterations requires a positive integer"@
            &&& message != "--runs requires a positive integer"@
            &&& message != "--layout requires both, shared, or padded"@
        },
    }
}

/// Nothing that follows a request for help, or a fault other than a missing value,
/// changes how the command line reads.
pub proof fn settled_reading_ignores_the_rest(
    config: Config,
    first: Seq<Seq<char>>,
    second: Seq<Seq<char>>,
)
    requires
        is_settled(reading(config, first)),
    ensures
        reading(config, first + second) == reading(config, first),
    decreases first.len(),
{
    let whole = first + second;
    let name = first[0];
    let rest = first.skip(1);
    assert(whole[0] == name);
    assert(whole.skip(1) =~= rest + second);
    if name == "--iterations"@ {
        assert(whole.skip(1)[0] == rest[0]);
        assert(whole.skip(1).skip(1) =~= rest.skip(1) + second);
        if let Some(iterations) = decimal_up_to(rest[0], u64::MAX as nat) {
            if iterations > 0 {
                settled_reading_ignores_the_rest(
                    Config { iterations: iterations as u64, ..config },
                    rest.skip(1),
                    second,
                );
            }
        }
    } else if name == "--runs"@ {
        assert(whole.skip(1)[0] == rest[0]);
        assert(whole.skip(1).skip(1) =~= rest.skip(1) + second);
        if let Some(runs) = decimal_up_to(rest[0], usize::MAX as nat) {
            if runs > 0 {
                settled_reading_ignores_the_rest(
                    Config { runs: runs as usize, ..config },
                    rest.skip(1),
                    second,
                );
            }
        }
    } else if name == "--layout"@ {
        assert(whole.skip(1)[0] == rest[0]);
        assert(whole.skip(1).skip(1) =~= rest.skip(1) + second);
        if let Some(selection) = selection_named(rest[0]) {
            settled_reading_ignores_the_rest(
                Config { selection, ..config },
                rest.skip(1),
                second,
            );
        }
    } else if name == "--no-warmup"@ {
        settled_reading_ignores_the_rest(Config { warmup: false, ..config }, rest, second);
    }
}

/// A request for help behind options without a fault is met, whatever follows it.
pub proof fn help_ends_the_reading(
    config: Config,
    first: Seq<Seq<char>>,
    help: Seq<char>,
    second: Seq<Seq<char>>,
)
    requires
        reading(config, first) matches Reading::Accepted(Request::Run(_)),
        help == "--help"@ || help == "-h"@,
    ensures
        reading(config, first + seq![help] + second) == Reading::Accepted(Request::Help),
{
    reveal_strlit("--help");
    reveal_strlit("-h");
    reveal_strlit("--iterations");
    reveal_strlit("--runs");
    reveal_strlit("--layout");
    reveal_strlit("--no-warmup");
    assert("--runs"@[2] == 'r' && "--help"@[2] == 'h' && "--layout"@[2] == 'l');
    assert("--no-warmup"@[2] == 'n' && "--iterations"@[2] == 'i');
    let rest = seq![help] + second;
    assert(rest[0] == help);
    readings_compose(config, first, rest);
    assert(first + seq![help] + second =~= first + rest);
}

proof fn names_differ()
    ensures
        "--iterations"@ != "--runs"@,
        "--iterations"@ != "--layout"@,
        "--iterations"@ != "--no-warmup"@,
        "--iterations"@ != "--help"@,
        "--iterations"@ != "-h"@,
        "--runs"@ != "--layout"@,
        "--runs"@ != "--no-warmup"@,
        "--runs"@ != "--help"@,
        "--runs"@ != "-h"@,
        "--layout"@ != "--no-warmup"@,
        "--layout"@ != "--help"@,
        "--layout"@ != "-h"@,
        "--no-warmup"@ != "--help"@,
        "--no-warmup"@ != "-h"@,
        "--help"@ != "-h"@,
{
    reveal_strlit("--iterations");
    reveal_strlit("--runs");
    reveal_strlit("--layout");
    reveal_strlit("--no-warmup");
    reveal_strlit("--help");
    reveal_strlit("-h");
    assert("--iterations"@[2] == 'i');
    assert("--runs"@[2] == 'r');
    assert("--layout"@[2] == 'l');
    assert("--no-warmup"@[2] == 'n');
    assert("--help"@[2] == 'h');
    assert("-h"@.len() == 2);
    assert("--iterations"@.len() > 2);
    assert("--runs"@.len() > 2);
    assert("--layout"@.len() > 2);
    assert("--no-warmup"@.len() > 2);
    assert("--help"@.len() > 2);
}

/// `--iterations` sets the number of iterations to the number that its value denotes, however
/// large, and nothing else. It is refused without a value, with a value that denotes no
/// number or one too large, and with zero.
pub proof fn iterations_option_sets_the_iterations(config: Config, value: Seq<char>)
    ensures
        reading(config, seq!["--iterations"@]) == Reading::Refused(
            "--iterations requires a positive integer"@,
        ),
        match decimal_value(value) {
            Some(number) if 0 < number <= u64::MAX => reading(
                config,
                seq!["--iterations"@, value],
            ) == Reading::Accepted(
                Request::Run(Config { iterations: number as u64, ..config }),
            ),
            Some(number) if number == 0 => reading(config, seq!["--iterations"@, value])
                == Reading::Refused("--iterations must be greater than zero"@),
            _ => reading(config, seq!["--iterations"@, value]) == Reading::Refused(
                "invalid --iterations value: "@ + value,
            ),
        },
{
    names_differ();
    reveal_with_fuel(reading, 2);
    let alone = seq!["--iterations"@];
    let given = seq!["--iterations"@, value];
    assert(alone.skip(1).len() == 0);
    assert(given.skip(1)[0] == value);
    assert(given.skip(1).skip(1).len() == 0);
}

/// `--runs` sets the number of runs to the number that its value denotes, however
/// large, and nothing else. It is refused without a value, with a value that denotes no
/// number or one too large, and with zero.
pub proof fn runs_option_sets_the_runs(config: Config, value: Seq<char>)
    ensures
        reading(config, seq!["--runs"@]) == Reading::Refused(
            "--runs requires a positive integer"@,
        ),
        match decimal_value(value) {
            Some(number) if 0 < number <= usize::MAX => reading(
                config,
                seq!["--runs"@, value],
            ) == Reading::Accepted(
                Request::Run(Config { runs: number as usize, ..config }),
            ),
            Some(number) if number == 0 => reading(config, seq!["--runs"@, value])
                == Reading::Refused("--runs must be greater than zero"@),
            _ => reading(config, seq!["--runs"@, value]) == Reading::Refused(
                "invalid --runs value: "@ + value,
            ),
        },
{
    names_differ();
    reveal_with_fuel(reading, 2);
    let alone = seq!["--runs"@];
    let given = seq!["--runs"@, value];
    assert(alone.skip(1).len() == 0);
    assert(given.skip(1)[0] == value);
    assert(given.skip(1).skip(1).len() == 0);
}

/// `--layout` selects the layouts that its value names, and sets nothing else. It is
/// refused without a value and with any other value.
pub proof fn layout_option_selects_the_layouts(config: Config, value: Seq<char>)
    ensures
        reading(config, seq!["--layout"@]) == Reading::Refused(
            "--layout requires both, shared, or padded"@,
        ),
        reading(config, seq!["--layout"@, "both"@]) == Reading::Accepted(
            Request::Run(Config { selection: Selection::Both, ..config }),
        ),
        reading(config, seq!["--layout"@, "shared"@]) == Reading::Accepted(
            Request::Run(Config { selection: Selection::Shared, ..config }),
        ),
        reading(config, seq!["--layout"@, "padded"@]) == Reading::Accepted(
            Request::Run(Config { selection: Selection::Padded, ..config }),
        ),
        value != "both"@ && value != "shared"@ && value != "padded"@ ==> reading(
            config,
            seq!["--layout"@, value],
        ) == Reading::Refused("invalid --layout value: "@ + value),
{
    names_differ();
    reveal_with_fuel(reading, 2);
    reveal_strlit("both");
    reveal_strlit("shared");
    reveal_strlit("padded");
    assert("both"@[0] == 'b' && "shared"@[0] == 's' && "padded"@[0] == 'p');
    assert(seq!["--layout"@].skip(1).len() == 0);
    let given = seq!["--layout"@, value];
    assert(given.skip(1)[0] == value);
    let both = seq!["--layout"@, "both"@];
    assert(both.skip(1)[0] == "both"@);
    assert(both.skip(1).skip(1).len() == 0);
    let first = seq!["--layout"@, "shared"@];
    assert(first.skip(1)[0] == "shared"@);
    assert(first.skip(1).skip(1).len() == 0);
    let second = seq!["--layout"@, "padded"@];
    assert(second.skip(1)[0] == "padded"@);
    assert(second.skip(1).skip(1).len() == 0);
}

/// `--no-warmup` switches the warm-up off, and sets nothing else.
pub proof fn no_warmup_option_switches_the_warmup_off(config: Config)
    ensures
        reading(config, seq!["--no-warmup"@]) == Reading::Accepted(
            Request::Run(Config { warmup: false, ..config }),
        ),
{
    names_differ();
    reveal_with_fuel(reading, 2);
    assert(seq!["--no-warmup"@].skip(1).len() == 0);
}

/// No argument asks to run as configured, and help is given for either of its names.
pub proof fn plain_readings(config: Config)
    ensures
        reading(config, Seq::empty()) == Reading::Accepted(Request::Run(config)),
        reading(config, seq!["--help"@]) == Reading::Accepted(Request::Help),
        reading(config, seq!["-h"@]) == Reading::Accepted(Request::Help),
        default_config() == (Config {
            iterations: 50_000_000, runs: 7, selection: Selection::Both, warmup: true,
        }),
{
    names_differ();
}

/// Whatever is no option is refused by its name.
pub proof fn other_arguments_are_unknown(config: Config, name: Seq<char>)
    requires
        name != "--iterations"@,
        name != "--runs"@,
        name != "--layout"@,
        name != "--no-warmup"@,
        name != "--help"@,
        name != "-h"@,
    ensures
        reading(config, seq![name]) == Reading::Refused("unknown argument: "@ + name),
{
    assert(seq![name][0] == name);
}

/// A fault other than a missing value is what is complained of, whatever follows it.
pub proof fn first_fault_is_complained_of(
    config: Config,
    first: Seq<Seq<char>>,
    second: Seq<Seq<char>>,
    message: Seq<char>,
)
    requires
        reading(config, first) == Reading::Refused(message),
        message != "--iterations requires a positive integer"@,
        message != "--runs requires a positive integer"@,
        message != "--layout requires both, shared, or padded"@,
    ensures
        reading(config, first + second) == Reading::Refused(message),
{
    settled_reading_ignores_the_rest(config, first, second);
}

/// A command line that asks for help goes on asking for it, whatever follows.
pub proof fn help_is_not_taken_back(
    config: Config,
    first: Seq<Seq<char>>,
    second: Seq<Seq<char>>,
)
    requires
        reading(config, first) == Reading::Accepted(Request::Help),
    ensures
        reading(config, first + second) == Reading::Accepted(Request::Help),
{
    settled_reading_ignores_the_rest(config, first, second);
}

} // verus!
