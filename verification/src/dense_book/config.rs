//! What the command line asks of the price book experiment.
use crate::arguments::{complaint, is_text, parse_usize};
use vstd::prelude::*;

verus! {

use crate::arguments::{decimal_up_to, decimal_value, texts};

/// How many runs are measured where the command line does not say.
pub const DEFAULT_RUNS: usize = 7;

/// The books to measure.
#[derive(Clone, Copy, Debug, PartialEq, Eq, Structural)]
pub enum Selection {
    Both,
    Tree,
    Dense,
}

/// How to run the experiment.
#[derive(Clone, Copy, Debug, PartialEq, Eq, Structural)]
pub struct Config {
    /// How many runs to measure.
    pub runs: usize,
    /// The books to measure.
    pub selection: Selection,
    /// Whether to run each book once beforehand, unmeasured.
    pub warmup: bool,
}

/// What a command line asks for.
#[derive(Clone, Copy, Debug, PartialEq, Eq, Structural)]
pub enum Request {
    /// Run the experiment.
    Run(Config),
    /// Print the usage.
    Help,
}

/// What becomes of a command line: a request, or a complaint.
#[verifier::ext_equal]
pub enum Reading {
    Accepted(Request),
    Refused(Seq<char>),
}

/// The configuration of an empty command line.
pub open spec fn default_config() -> Config {
    Config { runs: DEFAULT_RUNS, selection: Selection::Both, warmup: true }
}

/// The books that the value of `--book` names.
pub open spec fn selection_named(value: Seq<char>) -> Option<Selection> {
    if value == "both"@ {
        Some(Selection::Both)
    } else if value == "tree"@ {
        Some(Selection::Tree)
    } else if value == "dense"@ {
        Some(Selection::Dense)
    } else {
        None
    }
}

/// How a command line reads, where what came before it set `config`. Options are read
/// from left to right; the first fault or request for help ends the reading.
pub open spec fn reading(config: Config, arguments: Seq<Seq<char>>) -> Reading
    decreases arguments.len(),
{
    if arguments.len() == 0 {
        Reading::Accepted(Request::Run(config))
    } else {
        let name = arguments[0];
        let rest = arguments.skip(1);
        if name == "--runs"@ {
            if rest.len() == 0 {
                Reading::Refused("--runs requires a positive integer"@)
            } else {
                match decimal_up_to(rest[0], usize::MAX as nat) {
                    None => Reading::Refused("invalid --runs value: "@ + rest[0]),
                    Some(runs) if runs == 0 => Reading::Refused(
                        "--runs must be greater than zero"@,
                    ),
                    Some(runs) => reading(Config { runs: runs as usize, ..config }, rest.skip(1)),
                }
            }
        } else if name == "--book"@ {
            if rest.len() == 0 {
                Reading::Refused("--book requires both, tree, or dense"@)
            } else {
                match selection_named(rest[0]) {
                    None => Reading::Refused("invalid --book value: "@ + rest[0]),
                    Some(selection) => reading(Config { selection, ..config }, rest.skip(1)),
                }
            }
        } else if name == "--no-warmup"@ {
            reading(Config { warmup: false, ..config }, rest)
        } else if name == "--help"@ || name == "-h"@ {
            Reading::Accepted(Request::Help)
        } else {
            Reading::Refused("unknown argument: "@ + name)
        }
    }
}

/// The books that the value of `--book` names.
fn parse_selection(value: &String) -> (selection: Option<Selection>)
    ensures
        selection == selection_named(value@),
{
    if is_text(value, "both") {
        Some(Selection::Both)
    } else if is_text(value, "tree") {
        Some(Selection::Tree)
    } else if is_text(value, "dense") {
        Some(Selection::Dense)
    } else {
        None
    }
}

impl Config {
    /// Reads the arguments that follow the program's name.
    pub fn parse(arguments: &[String]) -> (parsed: Result<Request, String>)
        ensures
            match parsed {
                Ok(request) => reading(default_config(), texts(arguments@)) == Reading::Accepted(
                    request,
                ),
                Err(message) => reading(default_config(), texts(arguments@)) == Reading::Refused(
                    message@,
                ),
            },
    {
        let mut config = Config { runs: DEFAULT_RUNS, selection: Selection::Both, warmup: true };
        let ghost all = texts(arguments@);
        let mut next: usize = 0;
        assert(all.skip(0) =~= all);

        while next < arguments.len()
            invariant
                next <= arguments.len(),
                all == texts(arguments@),
                reading(default_config(), all) == reading(config, all.skip(next as int)),
            decreases arguments.len() - next,
        {
            let argument: &String = &arguments[next];
            let ghost rest = all.skip(next as int).skip(1);
            assert(rest =~= all.skip(next + 1));
            assert(all.skip(next as int)[0] == argument@);
            next = next + 1;
            if is_text(argument, "--runs") {
                if next == arguments.len() {
                    return Err("--runs requires a positive integer".to_owned());
                }
                let value: &String = &arguments[next];
                assert(rest[0] == value@);
                assert(rest.skip(1) =~= all.skip(next + 1));
                next = next + 1;
                match parse_usize(value.as_str()) {
                    None => {
                        return Err(complaint("invalid --runs value: ", value));
                    },
                    Some(runs) => {
                        if runs == 0 {
                            return Err("--runs must be greater than zero".to_owned());
                        }
                        config.runs = runs;
                    },
                }
            } else if is_text(argument, "--book") {
                if next == arguments.len() {
                    return Err("--book requires both, tree, or dense".to_owned());
                }
                let value: &String = &arguments[next];
                assert(rest[0] == value@);
                assert(rest.skip(1) =~= all.skip(next + 1));
                next = next + 1;
                match parse_selection(value) {
                    None => {
                        return Err(complaint("invalid --book value: ", value));
                    },
                    Some(selection) => {
                        config.selection = selection;
                    },
                }
            } else if is_text(argument, "--no-warmup") {
                config.warmup = false;
            } else if is_text(argument, "--help") || is_text(argument, "-h") {
                return Ok(Request::Help);
            } else {
                return Err(complaint("unknown argument: ", argument));
            }
        }

        Ok(Request::Run(config))
    }
}

/// An accepted command line asks for at least one run.
pub proof fn accepted_runs_are_positive(arguments: Seq<Seq<char>>)
    ensures
        reading(default_config(), arguments) matches Reading::Accepted(Request::Run(config))
            ==> config.runs > 0,
{
    runs_stay_positive(default_config(), arguments);
}

proof fn runs_stay_positive(config: Config, arguments: Seq<Seq<char>>)
    requires
        config.runs > 0,
    ensures
        reading(config, arguments) matches Reading::Accepted(Request::Run(last)) ==> last.runs > 0,
    decreases arguments.len(),
{
    if arguments.len() > 0 {
        let name = arguments[0];
        let rest = arguments.skip(1);
        if name == "--runs"@ && rest.len() > 0 {
            if let Some(runs) = decimal_up_to(rest[0], usize::MAX as nat) {
                if runs > 0 {
                    runs_stay_positive(Config { runs: runs as usize, ..config }, rest.skip(1));
                }
            }
        } else if name == "--book"@ && rest.len() > 0 {
            if let Some(selection) = selection_named(rest[0]) {
                runs_stay_positive(Config { selection, ..config }, rest.skip(1));
            }
        } else if name == "--no-warmup"@ {
            runs_stay_positive(Config { warmup: false, ..config }, rest);
        }
    }
}

/// A command line whose first part is a request to run reads as its second part does,
/// from the configuration that the first part set.
pub proof fn readings_compose(config: Config, first: Seq<Seq<char>>, second: Seq<Seq<char>>)
    ensures
        reading(config, first) matches Reading::Accepted(Request::Run(middle)) ==> reading(
            config,
            first + second,
        ) == reading(middle, second),
    decreases first.len(),
{
    let whole = first + second;
    if first.len() == 0 {
        assert(whole =~= second);
    } else {
        let name = first[0];
        let rest = first.skip(1);
        assert(whole[0] == name);
        assert(whole.skip(1) =~= rest + second);
        if name == "--runs"@ && rest.len() > 0 {
            assert(whole.skip(1)[0] == rest[0]);
            assert(whole.skip(1).skip(1) =~= rest.skip(1) + second);
            if let Some(runs) = decimal_up_to(rest[0], usize::MAX as nat) {
                if runs > 0 {
                    readings_compose(
                        Config { runs: runs as usize, ..config },
                        rest.skip(1),
                        second,
                    );
                }
            }
        } else if name == "--book"@ && rest.len() > 0 {
            assert(whole.skip(1)[0] == rest[0]);
            assert(whole.skip(1).skip(1) =~= rest.skip(1) + second);
            if let Some(selection) = selection_named(rest[0]) {
                readings_compose(Config { selection, ..config }, rest.skip(1), second);
            }
        } else if name == "--no-warmup"@ {
            readings_compose(Config { warmup: false, ..config }, rest, second);
        }
    }
}

/// Whether the reading ended before the end of the command line could: with a request
/// for help, or a complaint other than that a value is missing.
pub open spec fn is_settled(reading: Reading) -> bool {
    match reading {
        Reading::Accepted(Request::Run(_)) => false,
        Reading::Accepted(Request::Help) => true,
        Reading::Refused(message) => {
            &&& message != "--runs requires a positive integer"@
            &&& message != "--book requires both, tree, or dense"@
        },
    }
}

/// Nothing that follows a request for help, or a fault other than a missing value,
/// changes how the command line reads.
pub proof fn settled_reading_ignores_the_rest(
    config: Config,
    first: Seq<Seq<char>>,
    second: Seq<Seq<char>>,
)
    requires
        is_settled(reading(config, first)),
    ensures
        reading(config, first + second) == reading(config, first),
    decreases first.len(),
{
    let whole = first + second;
    let name = first[0];
    let rest = first.skip(1);
    assert(whole[0] == name);
    assert(whole.skip(1) =~= rest + second);
    if name == "--runs"@ {
        assert(whole.skip(1)[0] == rest[0]);
        assert(whole.skip(1).skip(1) =~= rest.skip(1) + second);
        if let Some(runs) = decimal_up_to(rest[0], usize::MAX as nat) {
            if runs > 0 {
                settled_reading_ignores_the_rest(
                    Config { runs: runs as usize, ..config },
                    rest.skip(1),
                    second,
                );
            }
        }
    } else if name == "--book"@ {
        assert(whole.skip(1)[0] == rest[0]);
        assert(whole.skip(1).skip(1) =~= rest.skip(1) + second);
        if let Some(selection) = selection_named(rest[0]) {
            settled_reading_ignores_the_rest(
                Config { selection, ..config },
                rest.skip(1),
                second,
            );
        }
    } else if name == "--no-warmup"@ {
        settled_reading_ignores_the_rest(Config { warmup: false, ..config }, rest, second);
    }
}

/// A request for help behind options without a fault is met, whatever follows it.
pub proof fn help_ends_the_reading(
    config: Config,
    first: Seq<Seq<char>>,
    help: Seq<char>,
    second: Seq<Seq<char>>,
)
    requires
        reading(config, first) matches Reading::Accepted(Request::Run(_)),
        help == "--help"@ || help == "-h"@,
    ensures
        reading(config, first + seq![help] + second) == Reading::Accepted(Request::Help),
{
    reveal_strlit("--help");
    reveal_strlit("-h");
    reveal_strlit("--runs");
    reveal_strlit("--book");
    reveal_strlit("--no-warmup");
    assert("--runs"@[2] == 'r' && "--help"@[2] == 'h' && "--book"@[2] == 'b');
    assert("--no-warmup"@[2] == 'n');
    let rest = seq![help] + second;
    assert(rest[0] == help);
    readings_compose(config, first, rest);
    assert(first + seq![help] + second =~= first + rest);
}

proof fn names_differ()
    ensures
        "--runs"@ != "--book"@,
        "--runs"@ != "--no-warmup"@,
        "--runs"@ != "--help"@,
        "--runs"@ != "-h"@,
        "--book"@ != "--no-warmup"@,
        "--book"@ != "--help"@,
        "--book"@ != "-h"@,
        "--no-warmup"@ != "--help"@,
        "--no-warmup"@ != "-h"@,
        "--help"@ != "-h"@,
{
    reveal_strlit("--runs");
    reveal_strlit("--book");
    reveal_strlit("--no-warmup");
    reveal_strlit("--help");
    reveal_strlit("-h");
    assert("--runs"@[2] == 'r');
    assert("--book"@[2] == 'b');
    assert("--no-warmup"@[2] == 'n');
    assert("--help"@[2] == 'h');
    assert("-h"@.len() == 2);
    assert("--runs"@.len() > 2);
    assert("--book"@.len() > 2);
    assert("--no-warmup"@.len() > 2);
    assert("--help"@.len() > 2);
}

/// `--runs` sets the number of runs to the number that its value denotes, however
/// large, and nothing else. It is refused without a value, with a value that denotes no
/// number or one too large, and with zero.
pub proof fn runs_option_sets_the_runs(config: Config, value: Seq<char>)
    ensures
        reading(config, seq!["--runs"@]) == Reading::Refused(
            "--runs requires a positive integer"@,
        ),
        match decimal_value(value) {
            Some(number) if 0 < number <= usize::MAX => reading(
                config,
                seq!["--runs"@, value],
            ) == Reading::Accepted(
                Request::Run(Config { runs: number as usize, ..config }),
            ),
            Some(number) if number == 0 => reading(config, seq!["--runs"@, value])
                == Reading::Refused("--runs must be greater than zero"@),
            _ => reading(config, seq!["--runs"@, value]) == Reading::Refused(
                "invalid --runs value: "@ + value,
            ),
        },
{
    names_differ();
    reveal_with_fuel(reading, 2);
    let alone = seq!["--runs"@];
    let given = seq!["--runs"@, value];
    assert(alone.skip(1).len() == 0);
    assert(given.skip(1)[0] == value);
    assert(given.skip(1).skip(1).len() == 0);
}

/// `--book` selects the books that its value names, and sets nothing else. It is
/// refused without a value and with any other value.
pub proof fn book_option_selects_the_books(config: Config, value: Seq<char>)
    ensures
        reading(config, seq!["--book"@]) == Reading::Refused(
            "--book requires both, tree, or dense"@,
        ),
        reading(config, seq!["--book"@, "both"@]) == Reading::Accepted(
            Request::Run(Config { selection: Selection::Both, ..config }),
        ),
        reading(config, seq!["--book"@, "tree"@]) == Reading::Accepted(
            Request::Run(Config { selection: Selection::Tree, ..config }),
        ),
        reading(config, seq!["--book"@, "dense"@]) == Reading::Accepted(
            Request::Run(Config { selection: Selection::Dense, ..config }),
        ),
        value != "both"@ && value != "tree"@ && value != "dense"@ ==> reading(
            config,
            seq!["--book"@, value],
        ) == Reading::Refused("invalid --book value: "@ + value),
{
    names_differ();
    reveal_with_fuel(reading, 2);
    reveal_strlit("both");
    reveal_strlit("tree");
    reveal_strlit("dense");
    assert("both"@[0] == 'b' && "tree"@[0] == 't' && "dense"@[0] == 'd');
    assert(seq!["--book"@].skip(1).len() == 0);
    let given = seq!["--book"@, value];
    assert(given.skip(1)[0] == value);
    let both = seq!["--book"@, "both"@];
    assert(both.skip(1)[0] == "both"@);
    assert(both.skip(1).skip(1).len() == 0);
    let first = seq!["--book"@, "tree"@];
    assert(first.skip(1)[0] == "tree"@);
    assert(first.skip(1).skip(1).len() == 0);
    let second = seq!["--book"@, "dense"@];
    assert(second.skip(1)[0] == "dense"@);
    assert(second.skip(1).skip(1).len() == 0);
}

/// `--no-warmup` switches the warm-up off, and sets nothing else.
pub proof fn no_warmup_option_switches_the_warmup_off(config: Config)
    ensures
        reading(config, seq!["--no-warmup"@]) == Reading::Accepted(
            Request::Run(Config { warmup: false, ..config }),
        ),
{
    names_differ();
    reveal_with_fuel(reading, 2);
    assert(seq!["--no-warmup"@].skip(1).len() == 0);
}

/// No argument asks to run as configured, and help is given for either of its names.
pub proof fn plain_readings(config: Config)
    ensures
        reading(config, Seq::empty()) == Reading::Accepted(Request::Run(config)),
        reading(config, seq!["--help"@]) == Reading::Accepted(Request::Help),
        reading(config, seq!["-h"@]) == Reading::Accepted(Request::Help),
        default_config() == (Config {
            runs: 7, selection: Selection::Both, warmup: true,
        }),
{
    names_differ();
}

/// Whatever is no option is refused by its name.
pub proof fn other_arguments_are_unknown(config: Config, name: Seq<char>)
    requires
        name != "--runs"@,
        name != "--book"@,
        name != "--no-warmup"@,
        name != "--help"@,
        name != "-h"@,
    ensures
        reading(config, seq![name]) == Reading::Refused("unknown argument: "@ + name),
{
    assert(seq![name][0] == name);
}

/// A fault other than a missing value is what is complained of, whatever follows it.
pub proof fn first_fault_is_complained_of(
    config: Config,
    first: Seq<Seq<char>>,
    second: Seq<Seq<char>>,
    message: Seq<char>,
)
    requires
        reading(config, first) == Reading::Refused(message),
        message != "--runs requires a positive integer"@,
        message != "--book requires both, tree, or dense"@,
    ensures
        reading(config, first + second) == Reading::Refused(message),
{
    settled_reading_ignores_the_rest(config, first, second);
}

/// A command line that asks for help goes on asking for it, whatever follows.
pub proof fn help_is_not_taken_back(
    config: Config,
    first: Seq<Seq<char>>,
    second: Seq<Seq<char>>,
)
    requires
        reading(config, first) == Reading::Accepted(Request::Help),
    ensures
        reading(config, first + second) == Reading::Accepted(Request::Help),
{
    settled_reading_ignores_the_rest(config, first, second);
}

} // verus!
