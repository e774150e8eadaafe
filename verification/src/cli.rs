//! Command-line parsing: the command word, then the options and paths of
//! each command, read left to right.

use vstd::prelude::*;
use crate::limit::{limit_value, parse_section_limit};
use crate::text::{chars_are, chars_of, chars_start_with, views};
use vstd::string::*;

verus! {

/// How a report is written out.
#[derive(Clone, Copy, Debug, Default, PartialEq, Eq)]
pub enum OutputFormat {
    #[default]
    Text,
    Json,
}

/// Options of `attribution`.
#[derive(Debug, PartialEq, Eq)]
pub struct AttributionOptions {
    pub manifest_path: String,
    pub binary_name: Option<String>,
    pub output: OutputFormat,
    pub crate_limit: Option<usize>,
}

/// Options of `diff`.
#[derive(Debug, PartialEq, Eq)]
pub struct DiffOptions {
    pub old_path: String,
    pub new_path: String,
    pub output: OutputFormat,
    pub section_limit: Option<usize>,
}

/// Options of `inspect`.
#[derive(Debug, PartialEq, Eq)]
pub struct InspectOptions {
    pub path: String,
    pub manifest_path: Option<String>,
    pub output: OutputFormat,
    pub section_limit: Option<usize>,
}

/// A parsed command line.
#[derive(Debug, PartialEq, Eq)]
pub enum Command {
    Help,
    Version,
    Attribution(AttributionOptions),
    Diff(DiffOptions),
    Inspect(InspectOptions),
}

/// The mathematical value of a command: strings are taken as character sequences.
#[allow(inconsistent_fields)]
pub enum CommandModel {
    Help,
    Version,
    Attribution {
        manifest_path: Seq<char>,
        binary_name: Option<Seq<char>>,
        output: OutputFormat,
        crate_limit: Option<usize>,
    },
    Diff {
        old_path: Seq<char>,
        new_path: Seq<char>,
        output: OutputFormat,
        section_limit: Option<usize>,
    },
    Inspect {
        path: Seq<char>,
        manifest_path: Option<Seq<char>>,
        output: OutputFormat,
        section_limit: Option<usize>,
    },
}

/// The characters of an optional string.
pub open spec fn opt_chars(o: Option<String>) -> Option<Seq<char>> {
    match o {
        Some(s) => Some(s@),
        None => None,
    }
}

impl View for Command {
    type V = CommandModel;

    open spec fn view(&self) -> CommandModel {
        match self {
            Command::Help => CommandModel::Help,
            Command::Version => CommandModel::Version,
            Command::Attribution(o) => CommandModel::Attribution {
                manifest_path: o.manifest_path@,
                binary_name: opt_chars(o.binary_name),
                output: o.output,
                crate_limit: o.crate_limit,
            },
            Command::Diff(o) => CommandModel::Diff {
                old_path: o.old_path@,
                new_path: o.new_path@,
                output: o.output,
                section_limit: o.section_limit,
            },
            Command::Inspect(o) => CommandModel::Inspect {
                path: o.path@,
                manifest_path: opt_chars(o.manifest_path),
                output: o.output,
                section_limit: o.section_limit,
            },
        }
    }
}

/// The view of a parse result: the command's model, or the error message.
pub open spec fn command_result(r: Result<Command, String>) -> Result<CommandModel, Seq<char>> {
    match r {
        Ok(c) => Ok(c@),
        Err(e) => Err(e@),
    }
}

/// The message for an argument that is not an option of `command`.
pub open spec fn unknown_option(command: Seq<char>, arg: Seq<char>) -> Seq<char> {
    "unknown "@ + command + " option '"@ + arg + "'"@
}

/// Whether an argument looks like an option.
pub open spec fn is_dashed(arg: Seq<char>) -> bool {
    arg.len() > 0 && arg[0] == '-'
}

/// The text that follows `prefix` in `arg`.
pub open spec fn after(prefix: Seq<char>, arg: Seq<char>) -> Seq<char> {
    arg.skip(prefix.len() as int)
}

// ---------------------------------------------------------------- inspect

/// What `inspect` has read so far.
pub struct InspectState {
    pub output: OutputFormat,
    pub manifest_path: Option<Seq<char>>,
    pub section_limit: Option<usize>,
    pub path: Option<Seq<char>>,
}

/// Nothing read yet.
pub open spec fn inspect_start() -> InspectState {
    InspectState { output: OutputFormat::Text, manifest_path: None, section_limit: None, path: None }
}

/// The outcome of `inspect` on the arguments `args`, having read `st` before them.
pub open spec fn inspect_from(args: Seq<Seq<char>>, st: InspectState) -> Result<CommandModel, Seq<char>>
    decreases args.len(),
{
    if args.len() == 0 {
        match st.path {
            None => Err("inspect requires a path"@),
            Some(path) => Ok(
                CommandModel::Inspect {
                    path,
                    manifest_path: st.manifest_path,
                    output: st.output,
                    section_limit: st.section_limit,
                },
            ),
        }
    } else {
        let arg = args[0];
        let rest = args.drop_first();
        if arg == "--json"@ {
            inspect_from(rest, InspectState { output: OutputFormat::Json, ..st })
        } else if arg == "--manifest-path"@ {
            if rest.len() == 0 {
                Err("--manifest-path requires a value"@)
            } else {
                inspect_from(rest.drop_first(), InspectState { manifest_path: Some(rest[0]), ..st })
            }
        } else if arg == "--limit"@ {
            if rest.len() == 0 {
                Err("--limit requires a value"@)
            } else {
                match limit_value(rest[0]) {
                    Err(e) => Err(e),
                    Ok(n) => inspect_from(rest.drop_first(), InspectState { section_limit: Some(n), ..st }),
                }
            }
        } else if arg == "-h"@ || arg == "--help"@ {
            Ok(CommandModel::Help)
        } else if "--limit="@.is_prefix_of(arg) {
            match limit_value(after("--limit="@, arg)) {
                Err(e) => Err(e),
                Ok(n) => inspect_from(rest, InspectState { section_limit: Some(n), ..st }),
            }
        } else if "--manifest-path="@.is_prefix_of(arg) {
            inspect_from(rest, InspectState { manifest_path: Some(after("--manifest-path="@, arg)), ..st })
        } else if is_dashed(arg) {
            Err(unknown_option("inspect"@, arg))
        } else if st.path is None {
            inspect_from(rest, InspectState { path: Some(arg), ..st })
        } else {
            Err("inspect accepts exactly one path"@)
        }
    }
}


/// The text of `s` after its first `n` characters.
fn suffix_after(s: &String, chars: &Vec<char>, n: usize) -> (res: String)
    requires
        chars@ == s@,
        n <= chars.len(),
    ensures
        res@ == s@.skip(n as int),
{
    let tail = s.as_str().substring_char(n, chars.len());
    proof {
        assert(s@.subrange(n as int, chars.len() as int) =~= s@.skip(n as int));
    }
    String::from_str(tail)
}

/// The message for an unknown option of `command`.
fn unknown_option_message(command: &str, arg: &String) -> (res: String)
    ensures
        res@ == unknown_option(command@, arg@),
{
    let mut message = String::from_str("unknown ");
    message.append(command);
    message.append(" option '");
    message.append(arg.as_str());
    message.append("'");
    message
}

/// The model of what `inspect` has read.
pub open spec fn inspect_state(
    output: OutputFormat,
    manifest_path: Option<String>,
    section_limit: Option<usize>,
    path: Option<String>,
) -> InspectState {
    InspectState {
        output,
        manifest_path: opt_chars(manifest_path),
        section_limit,
        path: opt_chars(path),
    }
}

/// Parses the arguments that follow `inspect`.
pub fn parse_inspect(args: Vec<String>) -> (res: Result<Command, String>)
    ensures
        command_result(res) == inspect_from(views(args@), inspect_start()),
{
    let ghost all = views(args@);
    let mut output = OutputFormat::Text;
    let mut manifest_path: Option<String> = None;
    let mut section_limit: Option<usize> = None;
    let mut path: Option<String> = None;
    let mut i: usize = 0;
    assert(all.skip(0) =~= all);
    while i < args.len()
        invariant
            all == views(args@),
            0 <= i <= args.len(),
            inspect_from(all, inspect_start()) == inspect_from(
                all.skip(i as int),
                inspect_state(output, manifest_path, section_limit, path),
            ),
        decreases args.len() - i,
    {
        let ghost st = inspect_state(output, manifest_path, section_limit, path);
        let ghost rest = all.skip(i as int).drop_first();
        assert(all.skip(i as int)[0] == args@[i as int]@);
        assert(rest =~= all.skip(i + 1));
        let arg = &args[i];
        let chars = chars_of(arg.as_str());
        if chars_are(&chars, "--json") {
            output = OutputFormat::Json;
            i = i + 1;
        } else if chars_are(&chars, "--manifest-path") {
            if i + 1 >= args.len() {
                return Err(String::from_str("--manifest-path requires a value"));
            }
            assert(rest[0] == args@[i + 1]@);
            assert(rest.drop_first() =~= all.skip(i + 2));
            manifest_path = Some(args[i + 1].clone());
            i = i + 2;
        } else if chars_are(&chars, "--limit") {
            if i + 1 >= args.len() {
                return Err(String::from_str("--limit requires a value"));
            }
            assert(rest[0] == args@[i + 1]@);
            assert(rest.drop_first() =~= all.skip(i + 2));
            let limit = parse_section_limit(args[i + 1].as_str())?;
            section_limit = Some(limit);
            i = i + 2;
        } else if chars_are(&chars, "-h") || chars_are(&chars, "--help") {
            return Ok(Command::Help);
        } else if chars_start_with(&chars, "--limit=") {
            proof { reveal_strlit("--limit="); }
            let value = suffix_after(arg, &chars, 8);
            let limit = parse_section_limit(value.as_str())?;
            section_limit = Some(limit);
            i = i + 1;
        } else if chars_start_with(&chars, "--manifest-path=") {
            proof { reveal_strlit("--manifest-path="); }
            manifest_path = Some(suffix_after(arg, &chars, 16));
            i = i + 1;
        } else if chars.len() > 0 && chars[0] == '-' {
            return Err(unknown_option_message("inspect", arg));
        } else if path.is_none() {
            path = Some(arg.clone());
            i = i + 1;
        } else {
            return Err(String::from_str("inspect accepts exactly one path"));
        }
    }
    match path {
        None => Err(String::from_str("inspect requires a path")),
        Some(path) => Ok(
            Command::Inspect(InspectOptions { path, manifest_path, output, section_limit }),
        ),
    }
}


// ---------------------------------------------------------------- diff

/// What `diff` has read so far.
pub struct DiffState {
    pub output: OutputFormat,
    pub section_limit: Option<usize>,
    pub paths: Seq<Seq<char>>,
}

/// Nothing read yet.
pub open spec fn diff_start() -> DiffState {
    DiffState { output: OutputFormat::Text, section_limit: None, paths: Seq::empty() }
}

/// The outcome of `diff` on the arguments `args`, having read `st` before them.
pub open spec fn diff_from(args: Seq<Seq<char>>, st: DiffState) -> Result<CommandModel, Seq<char>>
    decreases args.len(),
{
    if args.len() == 0 {
        if st.paths.len() != 2 {
            Err("diff requires two paths"@)
        } else {
            Ok(
                CommandModel::Diff {
                    old_path: st.paths[0],
                    new_path: st.paths[1],
                    output: st.output,
                    section_limit: st.section_limit,
                },
            )
        }
    } else {
        let arg = args[0];
        let rest = args.drop_first();
        if arg == "--json"@ {
            diff_from(rest, DiffState { output: OutputFormat::Json, ..st })
        } else if arg == "--limit"@ {
            if rest.len() == 0 {
                Err("--limit requires a value"@)
            } else {
                match limit_value(rest[0]) {
                    Err(e) => Err(e),
                    Ok(n) => diff_from(rest.drop_first(), DiffState { section_limit: Some(n), ..st }),
                }
            }
        } else if arg == "-h"@ || arg == "--help"@ {
            Ok(CommandModel::Help)
        } else if "--limit="@.is_prefix_of(arg) {
            match limit_value(after("--limit="@, arg)) {
                Err(e) => Err(e),
                Ok(n) => diff_from(rest, DiffState { section_limit: Some(n), ..st }),
            }
        } else if is_dashed(arg) {
            Err(unknown_option("diff"@, arg))
        } else if st.paths.len() < 2 {
            diff_from(rest, DiffState { paths: st.paths.push(arg), ..st })
        } else {
            Err("diff accepts exactly two paths"@)
        }
    }
}

/// Parses the arguments that follow `diff`.
pub fn parse_diff(args: Vec<String>) -> (res: Result<Command, String>)
    ensures
        command_result(res) == diff_from(views(args@), diff_start()),
{
    let ghost all = views(args@);
    let mut output = OutputFormat::Text;
    let mut section_limit: Option<usize> = None;
    let mut paths: Vec<String> = Vec::new();
    let mut i: usize = 0;
    assert(all.skip(0) =~= all);
    assert(views(paths@) =~= Seq::<Seq<char>>::empty());
    while i < args.len()
        invariant
            all == views(args@),
            0 <= i <= args.len(),
            paths.len() <= 2,
            diff_from(all, diff_start()) == diff_from(
                all.skip(i as int),
                DiffState { output, section_limit, paths: views(paths@) },
            ),
        decreases args.len() - i,
    {
        let ghost rest = all.skip(i as int).drop_first();
        assert(all.skip(i as int)[0] == args@[i as int]@);
        assert(rest =~= all.skip(i + 1));
        let arg = &args[i];
        let chars = chars_of(arg.as_str());
        if chars_are(&chars, "--json") {
            output = OutputFormat::Json;
            i = i + 1;
        } else if chars_are(&chars, "--limit") {
            if i + 1 >= args.len() {
                return Err(String::from_str("--limit requires a value"));
            }
            assert(rest[0] == args@[i + 1]@);
            assert(rest.drop_first() =~= all.skip(i + 2));
            let limit = parse_section_limit(args[i + 1].as_str())?;
            section_limit = Some(limit);
            i = i + 2;
        } else if chars_are(&chars, "-h") || chars_are(&chars, "--help") {
            return Ok(Command::Help);
        } else if chars_start_with(&chars, "--limit=") {
            proof { reveal_strlit("--limit="); }
            let value = suffix_after(arg, &chars, 8);
            let limit = parse_section_limit(value.as_str())?;
            section_limit = Some(limit);
            i = i + 1;
        } else if chars.len() > 0 && chars[0] == '-' {
            return Err(unknown_option_message("diff", arg));
        } else if paths.len() < 2 {
            let ghost before = paths@;
            paths.push(arg.clone());
            assert(views(paths@) =~= views(before).push(arg@));
            i = i + 1;
        } else {
            return Err(String::from_str("diff accepts exactly two paths"));
        }
    }
    if paths.len() != 2 {
        return Err(String::from_str("diff requires two paths"));
    }
    let new_path = paths.pop().unwrap();
    let old_path = paths.pop().unwrap();
    Ok(Command::Diff(DiffOptions { old_path, new_path, output, section_limit }))
}

// ---------------------------------------------------------------- attribution

/// What `attribution` has read so far.
pub struct AttributionState {
    pub output: OutputFormat,
    pub crate_limit: Option<usize>,
    pub manifest_path: Seq<char>,
    pub binary_name: Option<Seq<char>>,
}

/// Nothing read yet: text output, at most 20 crates, `Cargo.toml`, no binary name.
pub open spec fn attribution_start() -> AttributionState {
    AttributionState {
        output: OutputFormat::Text,
        crate_limit: Some(20),
        manifest_path: "Cargo.toml"@,
        binary_name: None,
    }
}

/// The outcome of `attribution` on the arguments `args`, having read `st` before them.
pub open spec fn attribution_from(args: Seq<Seq<char>>, st: AttributionState) -> Result<
    CommandModel,
    Seq<char>,
>
    decreases args.len(),
{
    if args.len() == 0 {
        Ok(
            CommandModel::Attribution {
                manifest_path: st.manifest_path,
                binary_name: st.binary_name,
                output: st.output,
                crate_limit: st.crate_limit,
            },
        )
    } else {
        let arg = args[0];
        let rest = args.drop_first();
        if arg == "--json"@ {
            attribution_from(rest, AttributionState { output: OutputFormat::Json, ..st })
        } else if arg == "--bin"@ {
            if rest.len() == 0 {
                Err("--bin requires a value"@)
            } else {
                attribution_from(rest.drop_first(), AttributionState { binary_name: Some(rest[0]), ..st })
            }
        } else if arg == "--manifest-path"@ {
            if rest.len() == 0 {
                Err("--manifest-path requires a value"@)
            } else {
                attribution_from(rest.drop_first(), AttributionState { manifest_path: rest[0], ..st })
            }
        } else if arg == "--limit"@ {
            if rest.len() == 0 {
                Err("--limit requires a value"@)
            } else {
                match limit_value(rest[0]) {
                    Err(e) => Err(e),
                    Ok(n) => attribution_from(
                        rest.drop_first(),
                        AttributionState { crate_limit: Some(n), ..st },
                    ),
                }
            }
        } else if arg == "-h"@ || arg == "--help"@ {
            Ok(CommandModel::Help)
        } else if "--bin="@.is_prefix_of(arg) {
            attribution_from(rest, AttributionState { binary_name: Some(after("--bin="@, arg)), ..st })
        } else if "--limit="@.is_prefix_of(arg) {
            match limit_value(after("--limit="@, arg)) {
                Err(e) => Err(e),
                Ok(n) => attribution_from(rest, AttributionState { crate_limit: Some(n), ..st }),
            }
        } else if "--manifest-path="@.is_prefix_of(arg) {
            attribution_from(
                rest,
                AttributionState { manifest_path: after("--manifest-path="@, arg), ..st },
            )
        } else if is_dashed(arg) {
            Err(unknown_option("attribution"@, arg))
        } else {
            Err("attribution does not accept positional paths"@)
        }
    }
}

/// Parses the arguments that follow `attribution`.
pub fn parse_attribution(args: Vec<String>) -> (res: Result<Command, String>)
    ensures
        command_result(res) == attribution_from(views(args@), attribution_start()),
{
    let ghost all = views(args@);
    let mut output = OutputFormat::Text;
    let mut crate_limit: Option<usize> = Some(20);
    let mut manifest_path = String::from_str("Cargo.toml");
    let mut binary_name: Option<String> = None;
    let mut i: usize = 0;
    assert(all.skip(0) =~= all);
    while i < args.len()
        invariant
            all == views(args@),
            0 <= i <= args.len(),
            attribution_from(all, attribution_start()) == attribution_from(
                all.skip(i as int),
                AttributionState {
                    output,
                    crate_limit,
                    manifest_path: manifest_path@,
                    binary_name: opt_chars(binary_name),
                },
            ),
        decreases args.len() - i,
    {
        let ghost rest = all.skip(i as int).drop_first();
        assert(all.skip(i as int)[0] == args@[i as int]@);
        assert(rest =~= all.skip(i + 1));
        let arg = &args[i];
        let chars = chars_of(arg.as_str());
        if chars_are(&chars, "--json") {
            output = OutputFormat::Json;
            i = i + 1;
        } else if chars_are(&chars, "--bin") {
            if i + 1 >= args.len() {
                return Err(String::from_str("--bin requires a value"));
            }
            assert(rest[0] == args@[i + 1]@);
            assert(rest.drop_first() =~= all.skip(i + 2));
            binary_name = Some(args[i + 1].clone());
            i = i + 2;
        } else if chars_are(&chars, "--manifest-path") {
            if i + 1 >= args.len() {
                return Err(String::from_str("--manifest-path requires a value"));
            }
            assert(rest[0] == args@[i + 1]@);
            assert(rest.drop_first() =~= all.skip(i + 2));
            manifest_path = args[i + 1].clone();
            i = i + 2;
        } else if chars_are(&chars, "--limit") {
            if i + 1 >= args.len() {
                return Err(String::from_str("--limit requires a value"));
            }
            assert(rest[0] == args@[i + 1]@);
            assert(rest.drop_first() =~= all.skip(i + 2));
            let limit = parse_section_limit(args[i + 1].as_str())?;
            crate_limit = Some(limit);
            i = i + 2;
        } else if chars_are(&chars, "-h") || chars_are(&chars, "--help") {
            return Ok(Command::Help);
        } else if chars_start_with(&chars, "--bin=") {
            proof { reveal_strlit("--bin="); }
            binary_name = Some(suffix_after(arg, &chars, 6));
            i = i + 1;
        } else if chars_start_with(&chars, "--limit=") {
            proof { reveal_strlit("--limit="); }
            let value = suffix_after(arg, &chars, 8);
            let limit = parse_section_limit(value.as_str())?;
            crate_limit = Some(limit);
            i = i + 1;
        } else if chars_start_with(&chars, "--manifest-path=") {
            proof { reveal_strlit("--manifest-path="); }
            manifest_path = suffix_after(arg, &chars, 16);
            i = i + 1;
        } else if chars.len() > 0 && chars[0] == '-' {
            return Err(unknown_option_message("attribution", arg));
        } else {
            return Err(String::from_str("attribution does not accept positional paths"));
        }
    }
    Ok(Command::Attribution(AttributionOptions { manifest_path, binary_name, output, crate_limit }))
}

// ---------------------------------------------------------------- command

/// The outcome of parsing a whole command line (without the program name):
/// no arguments, `-h` or `--help` ask for help; `-V` or `--version` for the
/// version; `attribution`, `diff` and `inspect` read their own arguments.
pub open spec fn command_from(args: Seq<Seq<char>>) -> Result<CommandModel, Seq<char>> {
    if args.len() == 0 {
        Ok(CommandModel::Help)
    } else {
        let word = args[0];
        let rest = args.drop_first();
        if word == "-h"@ || word == "--help"@ {
            Ok(CommandModel::Help)
        } else if word == "-V"@ || word == "--version"@ {
            Ok(CommandModel::Version)
        } else if word == "attribution"@ {
            attribution_from(rest, attribution_start())
        } else if word == "diff"@ {
            diff_from(rest, diff_start())
        } else if word == "inspect"@ {
            inspect_from(rest, inspect_start())
        } else {
            Err("unknown command '"@ + word + "'"@)
        }
    }
}

impl Command {
    /// Parses a command line, without the program name.
    pub fn parse(args: Vec<String>) -> (res: Result<Command, String>)
        ensures
            command_result(res) == command_from(views(args@)),
    {
        if args.len() == 0 {
            return Ok(Command::Help);
        }
        let ghost all = views(args@);
        let mut rest: Vec<String> = Vec::new();
        let mut i: usize = 1;
        while i < args.len()
            invariant
                all == views(args@),
                1 <= i <= args.len(),
                views(rest@) =~= all.subrange(1, i as int),
            decreases args.len() - i,
        {
            let ghost before = rest@;
            rest.push(args[i].clone());
            assert(views(rest@) =~= views(before).push(args@[i as int]@));
            i = i + 1;
        }
        assert(views(rest@) =~= all.drop_first());
        let word = chars_of(args[0].as_str());
        assert(all[0] == args@[0]@);
        if chars_are(&word, "-h") || chars_are(&word, "--help") {
            Ok(Command::Help)
        } else if chars_are(&word, "-V") || chars_are(&word, "--version") {
            Ok(Command::Version)
        } else if chars_are(&word, "attribution") {
            parse_attribution(rest)
        } else if chars_are(&word, "diff") {
            parse_diff(rest)
        } else if chars_are(&word, "inspect") {
            parse_inspect(rest)
        } else {
            let mut message = String::from_str("unknown command '");
            message.append(args[0].as_str());
            message.append("'");
            Err(message)
        }
    }
}


// ------------------------------------------------------------- laws

proof fn lemma_head(a: Seq<char>, v: Seq<char>, rest: Seq<Seq<char>>)
    ensures
        (seq![a, v] + rest)[0] == a,
        (seq![a, v] + rest).drop_first()[0] == v,
        (seq![a, v] + rest).drop_first().len() > 0,
        (seq![a, v] + rest).drop_first().drop_first() == rest,
        (seq![a + v] + rest)[0] == a + v,
        (seq![a + v] + rest).drop_first() == rest,
        (seq![a + v] + rest).len() > 0,
        (seq![a, v] + rest).len() > 0,
{
    assert((seq![a, v] + rest).drop_first().drop_first() =~= rest);
    assert((seq![a + v] + rest).drop_first() =~= rest);
}

/// At an option position of `inspect`, `--limit <v>` and `--limit=<v>` mean the same.
pub proof fn law_inspect_limit_forms_agree(value: Seq<char>, rest: Seq<Seq<char>>, st: InspectState)
    ensures
        inspect_from(seq!["--limit"@, value] + rest, st) == inspect_from(seq!["--limit="@ + value] + rest, st),
{
    reveal_strlit("--json");
    reveal_strlit("--manifest-path");
    reveal_strlit("--limit");
    reveal_strlit("--bin");
    reveal_strlit("-h");
    reveal_strlit("--help");
    reveal_strlit("--limit=");
    reveal_strlit("--manifest-path=");
    reveal_strlit("--bin=");
    lemma_head("--limit"@, value, rest);
    lemma_head("--limit="@, value, rest);
    let joined = "--limit="@ + value;
    assert(joined[2] == 'l' && joined.len() >= 8);
    assert("--limit="@.is_prefix_of(joined));
    assert(after("--limit="@, joined) =~= value);
}

/// At an option position of `inspect`, `--manifest-path <p>` and
/// `--manifest-path=<p>` mean the same.
pub proof fn law_inspect_manifest_forms_agree(value: Seq<char>, rest: Seq<Seq<char>>, st: InspectState)
    ensures
        inspect_from(seq!["--manifest-path"@, value] + rest, st) == inspect_from(
            seq!["--manifest-path="@ + value] + rest,
            st,
        ),
{
    reveal_strlit("--json");
    reveal_strlit("--manifest-path");
    reveal_strlit("--limit");
    reveal_strlit("--bin");
    reveal_strlit("-h");
    reveal_strlit("--help");
    reveal_strlit("--limit=");
    reveal_strlit("--manifest-path=");
    reveal_strlit("--bin=");
    lemma_head("--manifest-path"@, value, rest);
    lemma_head("--manifest-path="@, value, rest);
    let joined = "--manifest-path="@ + value;
    assert(joined[2] == 'm' && joined.len() >= 16);
    assert("--manifest-path="@.is_prefix_of(joined));
    assert(!"--limit="@.is_prefix_of(joined)) by {
        assert("--limit="@[2] != joined[2]);
    }
    assert(after("--manifest-path="@, joined) =~= value);
}

/// At an option position of `diff`, `--limit <v>` and `--limit=<v>` mean the same.
pub proof fn law_diff_limit_forms_agree(value: Seq<char>, rest: Seq<Seq<char>>, st: DiffState)
    ensures
        diff_from(seq!["--limit"@, value] + rest, st) == diff_from(seq!["--limit="@ + value] + rest, st),
{
    reveal_strlit("--json");
    reveal_strlit("--manifest-path");
    reveal_strlit("--limit");
    reveal_strlit("--bin");
    reveal_strlit("-h");
    reveal_strlit("--help");
    reveal_strlit("--limit=");
    reveal_strlit("--manifest-path=");
    reveal_strlit("--bin=");
    lemma_head("--limit"@, value, rest);
    lemma_head("--limit="@, value, rest);
    let joined = "--limit="@ + value;
    assert(joined[2] == 'l' && joined.len() >= 8);
    assert("--limit="@.is_prefix_of(joined));
    assert(after("--limit="@, joined) =~= value);
}

/// At an option position of `attribution`, `--limit <v>` and `--limit=<v>` mean the same.
pub proof fn law_attribution_limit_forms_agree(value: Seq<char>, rest: Seq<Seq<char>>, st: AttributionState)
    ensures
        attribution_from(seq!["--limit"@, value] + rest, st) == attribution_from(
            seq!["--limit="@ + value] + rest,
            st,
        ),
{
    reveal_strlit("--json");
    reveal_strlit("--manifest-path");
    reveal_strlit("--limit");
    reveal_strlit("--bin");
    reveal_strlit("-h");
    reveal_strlit("--help");
    reveal_strlit("--limit=");
    reveal_strlit("--manifest-path=");
    reveal_strlit("--bin=");
    lemma_head("--limit"@, value, rest);
    lemma_head("--limit="@, value, rest);
    let joined = "--limit="@ + value;
    assert(joined[2] == 'l' && joined.len() >= 8);
    assert("--limit="@.is_prefix_of(joined));
    assert(!"--bin="@.is_prefix_of(joined)) by {
        assert("--bin="@[2] != joined[2]);
    }
    assert(after("--limit="@, joined) =~= value);
}

/// At an option position of `attribution`, `--bin <name>` and `--bin=<name>` mean the same.
pub proof fn law_attribution_bin_forms_agree(value: Seq<char>, rest: Seq<Seq<char>>, st: AttributionState)
    ensures
        attribution_from(seq!["--bin"@, value] + rest, st) == attribution_from(seq!["--bin="@ + value] + rest, st),
{
    reveal_strlit("--json");
    reveal_strlit("--manifest-path");
    reveal_strlit("--limit");
    reveal_strlit("--bin");
    reveal_strlit("-h");
    reveal_strlit("--help");
    reveal_strlit("--limit=");
    reveal_strlit("--manifest-path=");
    reveal_strlit("--bin=");
    lemma_head("--bin"@, value, rest);
    lemma_head("--bin="@, value, rest);
    let joined = "--bin="@ + value;
    assert(joined[2] == 'b' && joined.len() >= 6);
    assert("--bin="@.is_prefix_of(joined));
    assert(after("--bin="@, joined) =~= value);
}

/// At an option position of `attribution`, `--manifest-path <p>` and
/// `--manifest-path=<p>` mean the same.
pub proof fn law_attribution_manifest_forms_agree(value: Seq<char>, rest: Seq<Seq<char>>, st: AttributionState)
    ensures
        attribution_from(seq!["--manifest-path"@, value] + rest, st) == attribution_from(
            seq!["--manifest-path="@ + value] + rest,
            st,
        ),
{
    reveal_strlit("--json");
    reveal_strlit("--manifest-path");
    reveal_strlit("--limit");
    reveal_strlit("--bin");
    reveal_strlit("-h");
    reveal_strlit("--help");
    reveal_strlit("--limit=");
    reveal_strlit("--manifest-path=");
    reveal_strlit("--bin=");
    lemma_head("--manifest-path"@, value, rest);
    lemma_head("--manifest-path="@, value, rest);
    let joined = "--manifest-path="@ + value;
    assert(joined[2] == 'm' && joined.len() >= 16);
    assert("--manifest-path="@.is_prefix_of(joined));
    assert(!"--limit="@.is_prefix_of(joined)) by {
        assert("--limit="@[2] != joined[2]);
    }
    assert(!"--bin="@.is_prefix_of(joined)) by {
        assert("--bin="@[2] != joined[2]);
    }
    assert(after("--manifest-path="@, joined) =~= value);
}

/// `--json` anywhere at an option position only switches the output to JSON.
pub proof fn law_inspect_json_sets_output(rest: Seq<Seq<char>>, st: InspectState)
    ensures
        inspect_from(seq!["--json"@] + rest, st) == inspect_from(rest, InspectState { output: OutputFormat::Json, ..st }),
{
    assert((seq!["--json"@] + rest).drop_first() =~= rest);
    assert((seq!["--json"@] + rest)[0] == "--json"@);
}

/// At an option position, `-h` or `--help` asks for help, whatever follows.
pub proof fn law_help_wins(word: Seq<char>, rest: Seq<Seq<char>>, st: InspectState, dst: DiffState, ast: AttributionState)
    requires
        word == "-h"@ || word == "--help"@,
    ensures
        inspect_from(seq![word] + rest, st) == Ok::<CommandModel, Seq<char>>(CommandModel::Help),
        diff_from(seq![word] + rest, dst) == Ok::<CommandModel, Seq<char>>(CommandModel::Help),
        attribution_from(seq![word] + rest, ast) == Ok::<CommandModel, Seq<char>>(CommandModel::Help),
{
    reveal_strlit("--json");
    reveal_strlit("--manifest-path");
    reveal_strlit("--limit");
    reveal_strlit("--bin");
    reveal_strlit("-h");
    reveal_strlit("--help");
    reveal_strlit("--limit=");
    reveal_strlit("--manifest-path=");
    reveal_strlit("--bin=");
    assert((seq![word] + rest)[0] == word);
    assert(word.len() == 2 || word[2] == 'h');
}

} // verus!
