//! Command-line arguments of the analyzer-compatible CLI:
//! `analyze --prompt "..." [--json] [--model M] file ...` or `prompt --prompt "..."`.

use vstd::prelude::*;
use vstd::string::*;
use crate::api::{full_prompt, full_prompt_spec, OutputFormat};
use crate::json::same_text;
use crate::text::{chars_of, strings_view};

verus! {

/// The exit code for arguments that cannot be used.
pub const USAGE_EXIT_CODE: u8 = 2;

/// The subcommand given on the command line.
#[derive(Debug, Clone, Copy, PartialEq, Eq, Structural)]
pub enum CliCommand {
    Analyze,
    Prompt,
}

/// A usable command line.
#[derive(Debug)]
pub struct CliRequest {
    pub command: CliCommand,
    pub prompt: String,
    pub json: bool,
    pub model: Option<String>,
    pub files: Vec<String>,
}

/// A command line that cannot be used: the message to print and the exit code.
#[derive(Debug)]
pub struct CliError {
    pub message: String,
    pub exit_code: u8,
}

/// What the arguments read so far have set.
pub struct CliState {
    pub command: Option<CliCommand>,
    pub prompt: Option<Seq<char>>,
    pub json: bool,
    pub model: Option<Seq<char>>,
    pub files: Seq<Seq<char>>,
}

/// Nothing set yet.
pub open spec fn cli_start() -> CliState {
    CliState { command: None, prompt: None, json: false, model: None, files: Seq::empty() }
}

/// Whether `a` begins with `--`.
pub open spec fn is_long_flag(a: Seq<char>) -> bool {
    a.len() >= 2 && a[0] == '-' && a[1] == '-'
}

/// Reads the arguments from index `i` on, starting from `st`: the final state,
/// or the message of the first unusable argument.
pub open spec fn cli_scan(args: Seq<Seq<char>>, i: int, st: CliState) -> Result<CliState, Seq<char>>
    decreases args.len() + 1 - i,
{
    if i < 0 || i >= args.len() {
        Ok(st)
    } else {
        let a = args[i];
        if a == "analyze"@ || a == "a"@ {
            cli_scan(args, i + 1, CliState { command: Some(CliCommand::Analyze), ..st })
        } else if a == "prompt"@ || a == "p"@ {
            cli_scan(args, i + 1, CliState { command: Some(CliCommand::Prompt), ..st })
        } else if a == "--prompt"@ || a == "-p"@ {
            if i + 1 >= args.len() {
                Err("--prompt requires value"@)
            } else {
                cli_scan(args, i + 2, CliState { prompt: Some(args[i + 1]), ..st })
            }
        } else if a == "--json"@ {
            cli_scan(args, i + 1, CliState { json: true, ..st })
        } else if a == "--model"@ || a == "-m"@ {
            if i + 1 >= args.len() {
                Err("--model requires value"@)
            } else {
                cli_scan(args, i + 2, CliState { model: Some(args[i + 1]), ..st })
            }
        } else if a == "--pay-per-use"@ {
            cli_scan(args, i + 1, st)
        } else if a == "--cli-path"@ || a == "--backend"@ {
            cli_scan(args, i + 2, st)
        } else if is_long_flag(a) {
            Err("unknown flag: "@ + a)
        } else {
            cli_scan(args, i + 1, CliState { files: st.files.push(a), ..st })
        }
    }
}

/// The request a command line makes, or the message that refuses it.
pub open spec fn cli_parse_spec(args: Seq<Seq<char>>) -> Result<CliState, Seq<char>> {
    match cli_scan(args, 0, cli_start()) {
        Err(m) => Err(m),
        Ok(st) => if st.command is None {
            Err("expected subcommand: analyze or prompt"@)
        } else if st.prompt is None {
            Err("--prompt is required"@)
        } else {
            Ok(st)
        },
    }
}

/// Whether `a` is a flag whose value is the next argument.
pub open spec fn takes_value(a: Seq<char>) -> bool {
    ||| a == "--prompt"@
    ||| a == "-p"@
    ||| a == "--model"@
    ||| a == "-m"@
    ||| a == "--cli-path"@
    ||| a == "--backend"@
}

/// The index of the argument read after the one at `i`: past a flag's value.
pub open spec fn next_arg(args: Seq<Seq<char>>, i: int) -> int {
    if takes_value(args[i]) {
        i + 2
    } else {
        i + 1
    }
}

/// Whether reading the arguments from index `i` on comes to the one at `k` as an
/// argument of its own, not as the value of a flag.
pub open spec fn reaches(args: Seq<Seq<char>>, i: int, k: int) -> bool
    decreases args.len() + 1 - i,
{
    if i < 0 || i >= args.len() || i > k {
        false
    } else if i == k {
        true
    } else {
        reaches(args, next_arg(args, i), k)
    }
}

/// Whether `--json` stands, as an argument of its own, among the arguments read
/// from index `i` on.
pub open spec fn json_reached(args: Seq<Seq<char>>, i: int) -> bool {
    exists|k: int| #[trigger] reaches(args, i, k) && args[k] == "--json"@
}

/// Whether the command line asks for JSON output with `--json`.
pub open spec fn json_flag_given(args: Seq<Seq<char>>) -> bool {
    json_reached(args, 0)
}

/// Reading the arguments from `i` on sets `json` exactly when `--json` is among them.
proof fn lemma_scan_json(args: Seq<Seq<char>>, i: int, st: CliState)
    requires
        0 <= i,
    ensures
        cli_scan(args, i, st) matches Ok(fin) ==> (fin.json <==> (st.json || json_reached(args, i))),
    decreases args.len() + 1 - i,
{
    reveal_strlit("analyze");
    reveal_strlit("a");
    reveal_strlit("prompt");
    reveal_strlit("p");
    reveal_strlit("--prompt");
    reveal_strlit("-p");
    reveal_strlit("--json");
    reveal_strlit("--model");
    reveal_strlit("-m");
    reveal_strlit("--pay-per-use");
    reveal_strlit("--cli-path");
    reveal_strlit("--backend");
    // The flags are told apart by their lengths, and those of one length by
    // their first two characters.
    assert("analyze"@[0] != "--model"@[0]);
    assert("a"@[0] != "p"@[0]);
    assert("prompt"@[0] != "--json"@[0]);
    assert("-p"@[1] != "-m"@[1]);
    assert("--json"@.len() == 6);
    assert("--pay-per-use"@.len() == 13);
    if i < args.len() {
        let a = args[i];
        let n = next_arg(args, i);
        let s2 = if a == "analyze"@ || a == "a"@ {
            CliState { command: Some(CliCommand::Analyze), ..st }
        } else if a == "prompt"@ || a == "p"@ {
            CliState { command: Some(CliCommand::Prompt), ..st }
        } else if a == "--prompt"@ || a == "-p"@ {
            CliState { prompt: Some(args[i + 1]), ..st }
        } else if a == "--json"@ {
            CliState { json: true, ..st }
        } else if a == "--model"@ || a == "-m"@ {
            CliState { model: Some(args[i + 1]), ..st }
        } else if a == "--pay-per-use"@ || a == "--cli-path"@ || a == "--backend"@ {
            st
        } else {
            CliState { files: st.files.push(a), ..st }
        };
        if cli_scan(args, i, st) is Ok {
            assert(cli_scan(args, i, st) == cli_scan(args, n, s2));
        }
        assert(s2.json == (st.json || a == "--json"@));
        lemma_scan_json(args, n, s2);
        assert forall|k: int| #[trigger] reaches(args, i, k) == (k == i || reaches(args, n, k)) by {}
        if json_reached(args, n) {
            let k = choose|k: int| #[trigger] reaches(args, n, k) && args[k] == "--json"@;
            assert(reaches(args, i, k));
        }
        if a == "--json"@ {
            assert(reaches(args, i, i));
        }
    }
}

/// `--json` asks for JSON output whatever the subcommand: a command line that
/// parses asks for it exactly when `--json` stands among its arguments as an
/// argument of its own (not as the value of `--prompt`, `--model` and the like).
pub proof fn law_json_flag(args: Seq<Seq<char>>)
    ensures
        cli_parse_spec(args) matches Ok(st) ==> (st.json <==> json_flag_given(args)),
{
    lemma_scan_json(args, 0, cli_start());
}

fn starts_with_two_dashes(a: &str) -> (r: bool)
    ensures
        r == is_long_flag(a@),
{
    let cs = chars_of(a);
    cs.len() >= 2 && cs[0] == '-' && cs[1] == '-'
}

fn clone_text(s: &String) -> (r: String)
    ensures
        r@ == s@,
{
    s.as_str().to_owned()
}

/// The model of an optional string.
pub open spec fn opt_view(o: Option<String>) -> Option<Seq<char>> {
    match o {
        Some(s) => Some(s@),
        None => None,
    }
}

/// Parses the command line (without the program name).
pub fn parse_cli_args(args: &[String]) -> (r: Result<CliRequest, CliError>)
    ensures
        match cli_parse_spec(strings_view(args@)) {
            Ok(st) => r matches Ok(req) && Some(req.command) == st.command && Some(req.prompt@) == st.prompt
                && req.json == st.json && opt_view(req.model) == st.model && strings_view(req.files@) == st.files,
            Err(m) => r matches Err(e) && e.message@ == m && e.exit_code == USAGE_EXIT_CODE,
        },
        r matches Ok(req) ==> (req.json <==> json_flag_given(strings_view(args@))),
{
    proof {
        law_json_flag(strings_view(args@));
    }
    let ghost av = strings_view(args@);
    let mut command: Option<CliCommand> = None;
    let mut prompt: Option<String> = None;
    let mut json = false;
    let mut model: Option<String> = None;
    let mut files: Vec<String> = Vec::new();
    let mut i: usize = 0;
    assert(strings_view(files@) =~= Seq::<Seq<char>>::empty());
    while i < args.len()
        invariant
            av == strings_view(args@),
            av.len() == args.len(),
            i <= args.len(),
            cli_scan(av, 0, cli_start()) == cli_scan(
                av,
                i as int,
                CliState {
                    command,
                    prompt: opt_view(prompt),
                    json,
                    model: opt_view(model),
                    files: strings_view(files@),
                },
            ),
        decreases args.len() - i,
    {
        let a = args[i].as_str();
        assert(av[i as int] == a@);
        proof {
            reveal_strlit("analyze");
            reveal_strlit("a");
            reveal_strlit("prompt");
            reveal_strlit("p");
        }
        if same_text(a, "analyze") || same_text(a, "a") {
            command = Some(CliCommand::Analyze);
        } else if same_text(a, "prompt") || same_text(a, "p") {
            command = Some(CliCommand::Prompt);
        } else if same_text(a, "--prompt") || same_text(a, "-p") {
            i = i + 1;
            if i >= args.len() {
                return Err(CliError { message: "--prompt requires value".to_owned(), exit_code: USAGE_EXIT_CODE });
            }
            prompt = Some(clone_text(&args[i]));
        } else if same_text(a, "--json") {
            json = true;
        } else if same_text(a, "--model") || same_text(a, "-m") {
            i = i + 1;
            if i >= args.len() {
                return Err(CliError { message: "--model requires value".to_owned(), exit_code: USAGE_EXIT_CODE });
            }
            model = Some(clone_text(&args[i]));
        } else if same_text(a, "--pay-per-use") {
        } else if same_text(a, "--cli-path") || same_text(a, "--backend") {
            let ghost st = CliState {
                command,
                prompt: opt_view(prompt),
                json,
                model: opt_view(model),
                files: strings_view(files@),
            };
            assert(cli_scan(av, i as int, st) == cli_scan(av, i + 2, st));
            if args.len() - i <= 2 {
                assert(cli_scan(av, i + 2, st) == cli_scan(av, args.len() as int, st));
                i = args.len();
            } else {
                i = i + 2;
            }
            continue;
        } else if starts_with_two_dashes(a) {
            let mut m = "unknown flag: ".to_owned();
            m.append(a);
            return Err(CliError { message: m, exit_code: USAGE_EXIT_CODE });
        } else {
            let ghost before = strings_view(files@);
            files.push(a.to_owned());
            assert(strings_view(files@) =~= before.push(a@));
        }
        i = i + 1;
    }
    let command = match command {
        Some(c) => c,
        None => {
            return Err(CliError {
                message: "expected subcommand: analyze or prompt".to_owned(),
                exit_code: USAGE_EXIT_CODE,
            });
        },
    };
    let prompt = match prompt {
        Some(p) => p,
        None => {
            return Err(CliError { message: "--prompt is required".to_owned(), exit_code: USAGE_EXIT_CODE });
        },
    };
    Ok(CliRequest { command, prompt, json, model, files })
}

impl CliRequest {
    /// The prompt as sent: with the JSON instruction appended under `--json`.
    pub fn full_prompt(&self) -> (r: String)
        ensures
            r@ == full_prompt_spec(
                self.prompt@,
                if self.json {
                    OutputFormat::Json
                } else {
                    OutputFormat::Text
                },
            ),
    {
        let format = if self.json {
            OutputFormat::Json
        } else {
            OutputFormat::Text
        };
        full_prompt(self.prompt.as_str(), format)
    }

    /// Whether the files go with the prompt: only for `analyze` with files.
    pub fn sends_files(&self) -> (r: bool)
        ensures
            r == (self.command == CliCommand::Analyze && self.files@.len() > 0),
    {
        match self.command {
            CliCommand::Prompt => false,
            CliCommand::Analyze => self.files.len() > 0,
        }
    }
}

} // verus!
