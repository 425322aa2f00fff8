//! Where the API key comes from: a value that is given, or a command that prints it.

use vstd::prelude::*;
use vstd::string::StringExecFns;
use vstd::utf8::{decode_utf8, valid_utf8};

use crate::error::{LambdaError, LambdaErrorView};
use crate::text::{
    is_blank, is_white_space, law_trimmed_empty_iff_blank, law_trimmed_takes_only_the_ends,
    law_trimming_finds_the_core, trimmed,
};

verus! {

/// How a shell runs a command.
#[derive(Debug)]
pub struct ShellCommand {
    pub program: String,
    pub args: Vec<String>,
}

/// How the shell of the system runs `command`.
pub fn shell_command(windows: bool, command: &str) -> (shell: ShellCommand)
    ensures
        shell.program@ == if windows {
            "cmd"@
        } else {
            "sh"@
        },
        shell.args@.len() == 2,
        shell.args@[0]@ == if windows {
            "/C"@
        } else {
            "-c"@
        },
        shell.args@[1]@ == command@,
{
    let mut args: Vec<String> = Vec::new();
    if windows {
        args.push("/C".to_owned());
        args.push(command.to_owned());
        ShellCommand { program: "cmd".to_owned(), args }
    } else {
        args.push("-c".to_owned());
        args.push(command.to_owned());
        ShellCommand { program: "sh".to_owned(), args }
    }
}

/// How a command ended.
pub enum CommandOutcome {
    /// It could not be run, and why.
    NotStarted(String),
    /// It ran to its end, and printed this.
    Exited { success: bool, stdout: Vec<u8>, stderr: Vec<u8> },
}

/// Bytes read as UTF-8, with what is not UTF-8 replaced.
pub uninterp spec fn utf8_lossy(bytes: Seq<u8>) -> Seq<char>;

/// `String::from_utf8_lossy`, by its name: the text of the bytes, in which the replacement
/// character stands for what is not UTF-8. Bytes that are UTF-8 are read as they are.
#[verifier::external_body]
fn read_lossy(bytes: &Vec<u8>) -> (text: String)
    ensures
        text@ == utf8_lossy(bytes@),
        valid_utf8(bytes@) ==> text@ == decode_utf8(bytes@),
{
    String::from_utf8_lossy(bytes).into_owned()
}

/// The text of what a command has printed: UTF-8 is read to the letter.
pub open spec fn output_text(bytes: Seq<u8>) -> Seq<char> {
    if valid_utf8(bytes) {
        decode_utf8(bytes)
    } else {
        utf8_lossy(bytes)
    }
}

/// The key that a command has printed, by what it printed.
pub open spec fn printed_key(success: bool, stdout: Seq<char>, stderr: Seq<char>) -> Result<
    Seq<char>,
    LambdaErrorView,
> {
    if !success {
        Err(LambdaErrorView::ApiKeyCommandFailed("Command failed: "@ + trimmed(stderr)))
    } else if trimmed(stdout).len() == 0 {
        Err(LambdaErrorView::ApiKeyCommandFailed("Command returned empty output"@))
    } else {
        Ok(trimmed(stdout))
    }
}

/// The key that a command has come to.
pub open spec fn command_key(outcome: CommandOutcome) -> Result<Seq<char>, LambdaErrorView> {
    match outcome {
        CommandOutcome::NotStarted(why) => Err(
            LambdaErrorView::ApiKeyCommandFailed("Failed to execute command: "@ + why@),
        ),
        CommandOutcome::Exited { success, stdout, stderr } => printed_key(
            success,
            output_text(stdout@),
            output_text(stderr@),
        ),
    }
}

/// A key, or why there is none, with texts for strings.
pub open spec fn key_view(key: Result<String, LambdaError>) -> Result<Seq<char>, LambdaErrorView> {
    match key {
        Ok(text) => Ok(text@),
        Err(error) => Err(error@),
    }
}

/// The key that a command has printed: its output without the white space around it.
pub fn read_printed_key(success: bool, stdout: &str, stderr: &str) -> (key: Result<
    String,
    LambdaError,
>)
    ensures
        key_view(key) == printed_key(success, stdout@, stderr@),
{
    if success {
        let key = stdout.trim();
        if key.is_empty() {
            Err(LambdaError::ApiKeyCommandFailed("Command returned empty output".to_owned()))
        } else {
            Ok(key.to_owned())
        }
    } else {
        Err(LambdaError::ApiKeyCommandFailed("Command failed: ".to_owned().concat(stderr.trim())))
    }
}

/// The key that a command has come to. One that is printed in UTF-8 is the key to the letter, but
/// for the white space around it, whatever stands on standard error; why a command failed is told
/// by standard error alone.
pub fn execute_api_key_command(outcome: CommandOutcome) -> (key: Result<String, LambdaError>)
    ensures
        key_view(key) == command_key(outcome),
        outcome is Exited && outcome->success && valid_utf8(outcome->stdout@) ==> key_view(key)
            == printed_key(true, decode_utf8(outcome->stdout@), utf8_lossy(outcome->stderr@)),
        outcome is Exited && !outcome->success && valid_utf8(outcome->stderr@) ==> key_view(key)
            == printed_key(false, utf8_lossy(outcome->stdout@), decode_utf8(outcome->stderr@)),
{
    match outcome {
        CommandOutcome::NotStarted(why) => Err(
            LambdaError::ApiKeyCommandFailed(
                "Failed to execute command: ".to_owned().concat(why.as_str()),
            ),
        ),
        CommandOutcome::Exited { success, stdout, stderr } => {
            let out = read_lossy(&stdout);
            let err = read_lossy(&stderr);
            read_printed_key(success, out.as_str(), err.as_str())
        },
    }
}

/// A command that succeeds is judged by its standard output alone, and one that fails by its
/// standard error alone.
pub proof fn law_one_stream_decides(outcome: CommandOutcome, other: CommandOutcome)
    requires
        outcome is Exited,
        other is Exited,
        outcome->success == other->success,
        outcome->success ==> outcome->stdout@ == other->stdout@,
        !outcome->success ==> outcome->stderr@ == other->stderr@,
    ensures
        command_key(outcome) == command_key(other),
{
}

/// Where the API key comes from.
#[derive(Debug, Clone)]
pub enum ApiKeySource {
    /// The key itself.
    Direct(String),
    /// A command that prints the key.
    Command(String),
}

/// An `ApiKeySource`, with texts for strings.
pub enum KeySourceView {
    Direct(Seq<char>),
    Command(Seq<char>),
}

impl View for ApiKeySource {
    type V = KeySourceView;

    open spec fn view(&self) -> KeySourceView {
        match self {
            ApiKeySource::Direct(key) => KeySourceView::Direct(key@),
            ApiKeySource::Command(command) => KeySourceView::Command(command@),
        }
    }
}

/// A command that succeeds and prints text that is not blank has printed its key: the text is the
/// key with nothing but white space around it, and the key neither begins nor ends with white
/// space. The text is the output itself where that is UTF-8.
pub proof fn law_key_is_the_core_of_the_output(outcome: CommandOutcome, text: Seq<char>)
    requires
        outcome is Exited,
        outcome->success,
        valid_utf8(outcome->stdout@) ==> text == decode_utf8(outcome->stdout@),
        !valid_utf8(outcome->stdout@) ==> text == utf8_lossy(outcome->stdout@),
        !is_blank(text),
    ensures
        command_key(outcome) is Ok,
        ({
            let key = command_key(outcome)->Ok_0;
            &&& key.len() > 0
            &&& !is_white_space(key[0])
            &&& !is_white_space(key[key.len() - 1])
            &&& exists|front: Seq<char>, back: Seq<char>|
                #![trigger is_blank(front), is_blank(back)]
                is_blank(front) && is_blank(back) && text == front + key + back
        }),
{
    law_trimmed_takes_only_the_ends(text);
    law_trimmed_empty_iff_blank(text);
}

/// White space around what a command prints makes no difference to the key: whatever stands around
/// it, the key is found as it is.
pub proof fn law_padded_key_is_found(
    outcome: CommandOutcome,
    front: Seq<char>,
    key: Seq<char>,
    back: Seq<char>,
)
    requires
        outcome is Exited,
        outcome->success,
        valid_utf8(outcome->stdout@),
        decode_utf8(outcome->stdout@) == front + key + back,
        is_blank(front),
        is_blank(back),
        key.len() > 0,
        !is_white_space(key[0]),
        !is_white_space(key[key.len() - 1]),
    ensures
        command_key(outcome) == Ok::<Seq<char>, LambdaErrorView>(key),
{
    law_trimming_finds_the_core(front, key, back);
}

/// A command that succeeds and prints nothing but white space has no key. One that fails has none
/// either, and what it printed on standard error, without the white space around it, tells why. One
/// that cannot be run has none, and the system tells why.
pub proof fn law_why_there_is_no_key(
    outcome: CommandOutcome,
    text: Seq<char>,
    front: Seq<char>,
    why: Seq<char>,
    back: Seq<char>,
)
    ensures
        outcome is Exited && outcome->success && is_blank(text) && (valid_utf8(outcome->stdout@)
            ==> text == decode_utf8(outcome->stdout@)) && (!valid_utf8(outcome->stdout@) ==> text
            == utf8_lossy(outcome->stdout@)) ==> command_key(outcome) == Err::<
            Seq<char>,
            LambdaErrorView,
        >(LambdaErrorView::ApiKeyCommandFailed("Command returned empty output"@)),
        outcome is Exited && !outcome->success && text == front + why + back && is_blank(front)
            && is_blank(back) && (why.len() > 0 ==> !is_white_space(why[0]) && !is_white_space(
            why[why.len() - 1],
        )) && (valid_utf8(outcome->stderr@) ==> text == decode_utf8(outcome->stderr@)) && (
        !valid_utf8(outcome->stderr@) ==> text == utf8_lossy(outcome->stderr@)) ==> command_key(
            outcome,
        ) == Err::<Seq<char>, LambdaErrorView>(
            LambdaErrorView::ApiKeyCommandFailed("Command failed: "@ + why),
        ),
        outcome is NotStarted ==> command_key(outcome) == Err::<Seq<char>, LambdaErrorView>(
            LambdaErrorView::ApiKeyCommandFailed(
                "Failed to execute command: "@ + outcome->NotStarted_0@,
            ),
        ),
{
    law_trimmed_empty_iff_blank(text);
    if is_blank(front) && is_blank(back) && (why.len() > 0 ==> !is_white_space(why[0])
        && !is_white_space(why[why.len() - 1])) {
        law_trimming_finds_the_core(front, why, back);
    }
}

/// Reading what was printed goes by the same rules, whatever the strings: a key comes out exactly
/// when the command succeeded and its output is not blank, and it is the output without the white
/// space around it.
pub proof fn law_printed_key_is_the_core(
    success: bool,
    stderr: Seq<char>,
    front: Seq<char>,
    core: Seq<char>,
    back: Seq<char>,
)
    requires
        is_blank(front),
        is_blank(back),
        core.len() > 0 ==> !is_white_space(core[0]) && !is_white_space(core[core.len() - 1]),
    ensures
        printed_key(success, front + core + back, stderr) is Ok <==> success && core.len() > 0,
        success && core.len() > 0 ==> printed_key(success, front + core + back, stderr) == Ok::<
            Seq<char>,
            LambdaErrorView,
        >(core),
        success && core.len() == 0 ==> printed_key(success, front + core + back, stderr) == Err::<
            Seq<char>,
            LambdaErrorView,
        >(LambdaErrorView::ApiKeyCommandFailed("Command returned empty output"@)),
        !success ==> printed_key(success, stderr, front + core + back) == Err::<
            Seq<char>,
            LambdaErrorView,
        >(LambdaErrorView::ApiKeyCommandFailed("Command failed: "@ + core)),
{
    law_trimming_finds_the_core(front, core, back);
}

/// A key, an error or a source of keys is seen with all that it holds.
pub proof fn law_key_views_lose_nothing(text: String, error: LambdaError)
    ensures
        key_view(Ok(text)) == Ok::<Seq<char>, LambdaErrorView>(text@),
        key_view(Err(error)) == Err::<Seq<char>, LambdaErrorView>(error@),
        ApiKeySource::Direct(text)@ == KeySourceView::Direct(text@),
        ApiKeySource::Command(text)@ == KeySourceView::Command(text@),
{
}

} // verus!
