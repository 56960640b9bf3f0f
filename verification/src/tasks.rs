//! The two invocations that the application makes: running the task script
//! and listing the installed models.

use crate::command::{CommandSpec, CommandSpecView};
use crate::table::{is_name_list, listed_names, name_texts, parse_names};
use vstd::prelude::*;
use vstd::string::{StrSliceExecFns, StringSliceAdditionalSpecFns};

verus! {

/// The command that runs the task script: the interpreter under its usual
/// name and, failing that, under its older one; the script and the model to
/// use as arguments; the interpreter's streams set to UTF-8; and the prompt,
/// as UTF-8, on standard input.
pub fn script_task(prompt: &str, ai_model: &str) -> (spec: CommandSpec)
    ensures
        spec@ == (CommandSpecView {
            candidates: seq!["python3"@, "python"@],
            args: seq!["../runner.py"@, ai_model@],
            env: Map::empty().insert("PYTHONIOENCODING"@, "utf-8"@),
            input: Some(prompt.spec_bytes()),
        }),
{
    let spec = CommandSpec::new("python3").fallback("python").arg("../runner.py").arg(ai_model).env(
        "PYTHONIOENCODING",
        "utf-8",
    ).input(prompt.as_bytes_vec());
    assert(spec@.candidates =~= seq!["python3"@, "python"@]);
    assert(spec@.args =~= seq!["../runner.py"@, ai_model@]);
    spec
}

/// The command that lists the installed models.
pub fn model_listing() -> (spec: CommandSpec)
    ensures
        spec@ == (CommandSpecView {
            candidates: seq!["ollama"@],
            args: seq!["list"@],
            env: Map::empty(),
            input: None,
        }),
{
    CommandSpec::new("ollama").arg("list")
}

/// The names of the models in `listing`, the output of the listing command,
/// in ascending order: the first column of every row under the header
/// `NAME`, without the tag `:latest`.
pub fn model_names(listing: &str) -> (names: Vec<String>)
    ensures
        is_name_list(listing@, "NAME"@, ":latest"@, name_texts(names@)),
        names@.len() == listed_names(listing@, "NAME"@, ":latest"@).len(),
{
    parse_names(listing, "NAME", ":latest")
}

} // verus!
