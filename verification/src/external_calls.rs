//! The command lines handed to the shell: running one test in a terminal of
//! its own, and opening an entity's file in the user's editor.

use crate::entities::ParsedTest;
use crate::text::{
    before_separator, decimal, is_substring, push_decimal, str_contains, text_before_separator,
};
use vstd::prelude::*;
use vstd::string::*;

verus! {

/// The command line that runs the test with the given full path and then
/// leaves a shell open.
pub open spec fn test_command_text(full_path: Seq<char>) -> Seq<char> {
    "pytest "@ + full_path + " -vvv -p no:warnings; exec zsh"@
}

/// Builds the command line that runs one test in a shell.
pub fn shell_test_command(full_path: &str) -> (command: String)
    ensures
        command@ == test_command_text(full_path@),
{
    let mut command = "pytest ".to_owned();
    command.append(full_path);
    command.append(" -vvv -p no:warnings; exec zsh");
    command
}

/// The file that an entity with the full path `full_path` stands in: what
/// comes before the first pair of colons.
pub fn source_file_of(full_path: &str) -> (file: String)
    ensures
        file@ == before_separator(full_path@),
{
    text_before_separator(full_path)
}

/// The command line that opens `file` at line `row` in the editor called
/// `editor`. The editor is told apart by what its name holds, the first of
/// `hx`, `vi`, `nano`, `code` and `pycharm` that it holds deciding; an editor
/// that holds none of them is given the file alone. The command names the
/// editor through the variable, not by its value.
pub open spec fn editor_command_text(editor: Seq<char>, file: Seq<char>, row: nat) -> Seq<char> {
    if is_substring("hx"@, editor) {
        "$EDITOR "@ + file + ":"@ + decimal(row)
    } else if is_substring("vi"@, editor) {
        "$EDITOR "@ + file + " +"@ + decimal(row)
    } else if is_substring("nano"@, editor) {
        "$EDITOR +"@ + decimal(row) + " "@ + file
    } else if is_substring("code"@, editor) {
        "$EDITOR -g "@ + file + ":"@ + decimal(row)
    } else if is_substring("pycharm"@, editor) {
        "$EDITOR -line "@ + decimal(row) + " "@ + file
    } else {
        "$EDITOR "@ + file
    }
}

/// Builds the command line that opens the file of `test` at the line of
/// `test` in the editor called `editor`.
pub fn editor_command(editor: &str, test: &ParsedTest) -> (command: String)
    ensures
        command@ == editor_command_text(
            editor@,
            before_separator(test.full_path@),
            test.row_location as nat,
        ),
{
    let file = source_file_of(test.full_path.as_str());
    let row = test.row_location;
    if str_contains(editor, "hx") {
        let mut command = "$EDITOR ".to_owned();
        command.append(file.as_str());
        command.append(":");
        push_decimal(&mut command, row);
        command
    } else if str_contains(editor, "vi") {
        let mut command = "$EDITOR ".to_owned();
        command.append(file.as_str());
        command.append(" +");
        push_decimal(&mut command, row);
        command
    } else if str_contains(editor, "nano") {
        let mut command = "$EDITOR +".to_owned();
        push_decimal(&mut command, row);
        command.append(" ");
        command.append(file.as_str());
        command
    } else if str_contains(editor, "code") {
        let mut command = "$EDITOR -g ".to_owned();
        command.append(file.as_str());
        command.append(":");
        push_decimal(&mut command, row);
        command
    } else if str_contains(editor, "pycharm") {
        let mut command = "$EDITOR -line ".to_owned();
        push_decimal(&mut command, row);
        command.append(" ");
        command.append(file.as_str());
        command
    } else {
        let mut command = "$EDITOR ".to_owned();
        command.append(file.as_str());
        command
    }
}

/// The script that has the terminal application of macOS run `command`
/// from the directory `pwd` with the tools of the virtual environment
/// `venv`.
pub open spec fn terminal_script_text(pwd: Seq<char>, venv: Seq<char>, command: Seq<char>) -> Seq<
    char,
> {
    "tell application \"Terminal\" to do script \"cd "@ + pwd + " && "@ + venv + "/bin/"@ + command
        + "\""@
}

/// Builds the script that has the terminal application of macOS run
/// `command`.
pub fn terminal_script(pwd: &str, venv: &str, command: &str) -> (script: String)
    ensures
        script@ == terminal_script_text(pwd@, venv@, command@),
{
    let mut script = "tell application \"Terminal\" to do script \"cd ".to_owned();
    script.append(pwd);
    script.append(" && ");
    script.append(venv);
    script.append("/bin/");
    script.append(command);
    script.append("\"");
    script
}

/// What a finished command amounts to: success where it wrote nothing to
/// its error stream, else what it wrote there.
pub fn command_outcome(stderr: String) -> (r: Result<(), String>)
    ensures
        stderr@.len() == 0 ==> r is Ok,
        stderr@.len() > 0 ==> (r matches Err(message) && message@ == stderr@),
{
    if stderr.as_str().is_empty() {
        Ok(())
    } else {
        Err(stderr)
    }
}

} // verus!
