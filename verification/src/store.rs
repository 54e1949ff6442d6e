//! The encrypted store: what is asked of the encryption tool, and what its
//! answers mean.
//!
//! The library does not start the tool. It builds the argument list of each
//! invocation and reads the outcome that the caller hands back.

use crate::text::{utf8_lossy, utf8_lossy_text, utf8_text};
use vstd::prelude::*;
use vstd::string::StringExecFns;
use vstd::utf8::{decode_utf8, valid_utf8};

verus! {

/// Why the store could not be read or written.
#[derive(Debug, Clone, PartialEq, Eq)]
pub enum StoreError {
    /// The tool could not be started.
    ToolNotFound,
    /// The tool ran and reported failure; this is what it wrote to its
    /// error stream.
    ToolExecutionFailed(String),
    /// The tool succeeded, but what it printed is no text.
    EncodingError,
}

/// A [`StoreError`] with its message as a sequence of characters.
pub ghost enum StoreErrorView {
    ToolNotFound,
    ToolExecutionFailed(Seq<char>),
    EncodingError,
}

impl View for StoreError {
    type V = StoreErrorView;

    open spec fn view(&self) -> StoreErrorView {
        match self {
            StoreError::ToolNotFound => StoreErrorView::ToolNotFound,
            StoreError::ToolExecutionFailed(message) => StoreErrorView::ToolExecutionFailed(
                message@,
            ),
            StoreError::EncodingError => StoreErrorView::EncodingError,
        }
    }
}

/// What came of starting a child process and waiting for it.
#[derive(Debug, Clone, PartialEq, Eq)]
pub enum ProcessRun {
    /// The program could not be started.
    Unreachable,
    /// The program ran to its end: whether it reported success, and what it
    /// wrote to its output and error streams.
    Exited { success: bool, stdout: Vec<u8>, stderr: Vec<u8> },
}

/// What an invocation of the tool means: the text that it printed, or why
/// there is none. A tool that could not be started is not found; one that
/// reports failure is quoted by its error stream; one that succeeds must
/// have printed well-formed UTF-8.
pub open spec fn tool_result(run: ProcessRun) -> Result<Seq<char>, StoreErrorView> {
    match run {
        ProcessRun::Unreachable => Err(StoreErrorView::ToolNotFound),
        ProcessRun::Exited { success, stdout, stderr } => if !success {
            Err(StoreErrorView::ToolExecutionFailed(utf8_lossy(stderr@)))
        } else if valid_utf8(stdout@) {
            Ok(decode_utf8(stdout@))
        } else {
            Err(StoreErrorView::EncodingError)
        },
    }
}

/// The outcome of reading an invocation, as plain values.
pub open spec fn result_view(r: Result<String, StoreError>) -> Result<Seq<char>, StoreErrorView> {
    match r {
        Ok(text) => Ok(text@),
        Err(e) => Err(e@),
    }
}

/// Whether `serde_json::from_str` reads `text` as one JSON value.
pub uninterp spec fn parses_as_json(text: Seq<char>) -> bool;

/// Calls `serde_json::from_str` for a `serde_json::Value` and says whether
/// it succeeded.
#[verifier::external_body]
pub(crate) fn is_json(text: &str) -> (ok: bool)
    ensures
        ok == parses_as_json(text@),
{
    serde_json::from_str::<serde_json::Value>(text).is_ok()
}

/// The digit of `d` in lower-case hexadecimal.
pub open spec fn hex_digit(d: int) -> char {
    if d < 10 {
        ('0' as int + d) as char
    } else {
        ('a' as int + d - 10) as char
    }
}

/// How one character stands inside a JSON string: the quotation mark, the
/// backslash and the control characters below U+0020 are escaped, every
/// other character stands for itself.
pub open spec fn json_escape(c: char) -> Seq<char> {
    if c == '"' {
        seq!['\\', '"']
    } else if c == '\\' {
        seq!['\\', '\\']
    } else if c == '\u{08}' {
        seq!['\\', 'b']
    } else if c == '\t' {
        seq!['\\', 't']
    } else if c == '\n' {
        seq!['\\', 'n']
    } else if c == '\u{0c}' {
        seq!['\\', 'f']
    } else if c == '\r' {
        seq!['\\', 'r']
    } else if (c as int) < 0x20 {
        seq!['\\', 'u', '0', '0', hex_digit(c as int / 16), hex_digit(c as int % 16)]
    } else {
        seq![c]
    }
}

/// The characters of `s`, each as it stands inside a JSON string.
pub open spec fn json_escaped(s: Seq<char>) -> Seq<char>
    decreases s.len(),
{
    if s.len() == 0 {
        Seq::empty()
    } else {
        json_escaped(s.drop_last()) + json_escape(s.last())
    }
}

/// The JSON string that holds `s`.
pub open spec fn json_string(s: Seq<char>) -> Seq<char> {
    seq!['"'] + json_escaped(s) + seq!['"']
}

/// Prints `text` as a JSON string, by `serde_json::Value`'s compact
/// `to_string`: the text between quotation marks, escaped as
/// [`json_escape`] says.
#[verifier::external_body]
pub(crate) fn quote_json(text: &str) -> (r: String)
    ensures
        r@ == json_string(text@),
{
    serde_json::Value::String(text.to_string()).to_string()
}

/// Calls `std::path::Path::extension` on `path`. How a path falls into
/// components differs between systems, so nothing is stated of the result.
#[verifier::external_body]
pub(crate) fn file_extension(path: &str) -> (r: Option<String>) {
    std::path::Path::new(path).extension().and_then(|e| e.to_str()).map(|e| e.to_string())
}

/// The JSON literal under which a value is stored: the value itself where
/// it reads as JSON, so that numbers, booleans and objects keep their type,
/// and else the JSON string that holds it.
pub open spec fn json_literal(value: Seq<char>) -> Seq<char> {
    if parses_as_json(value) {
        value
    } else {
        json_string(value)
    }
}

/// The file is in the flat INI format, going by its extension.
pub open spec fn is_ini(extension: Option<Seq<char>>) -> bool {
    extension == Some("ini"@)
}

/// The expression that sets `key` to `literal`: the key is addressed at the
/// top level, or inside the section `config` for an INI file.
pub open spec fn set_expression(ini: bool, key: Seq<char>, literal: Seq<char>) -> Seq<char> {
    if ini {
        "[\"config\"][\""@ + key + "\"] "@ + literal
    } else {
        "[\""@ + key + "\"] "@ + literal
    }
}

/// The arguments that make the tool decrypt `path`.
pub open spec fn decrypt_arguments(path: Seq<char>) -> Seq<Seq<char>> {
    seq!["--decrypt"@, path]
}

/// The arguments that make the tool set `key` to `value` in `path`.
pub open spec fn set_arguments(path: Seq<char>, ini: bool, key: Seq<char>, value: Seq<char>) -> Seq<
    Seq<char>,
> {
    seq!["--set"@, set_expression(ini, key, json_literal(value)), path]
}

/// The views of a vector of strings, element by element.
pub open spec fn argument_views(arguments: Seq<String>) -> Seq<Seq<char>> {
    Seq::new(arguments.len(), |i: int| arguments[i]@)
}

/// The JSON literal for a value of which it is known whether it reads as
/// JSON: the value itself where it does, else the JSON string that holds
/// it.
pub fn literal_for(value: &str, reads_as_json: bool) -> (r: String)
    ensures
        r@ == if reads_as_json {
            value@
        } else {
            json_string(value@)
        },
{
    if reads_as_json {
        value.to_owned()
    } else {
        quote_json(value)
    }
}

/// Turns a value into the JSON literal that the tool is given.
pub fn format_value_for_sops(value: &str) -> (r: String)
    ensures
        r@ == json_literal(value@),
{
    literal_for(value, is_json(value))
}

/// The arguments with which the tool sets `key` to the JSON literal
/// `literal` in `filepath`, inside the section `config` where `ini` holds.
pub fn set_arguments_for(filepath: &str, ini: bool, key: &str, literal: &str) -> (arguments: Vec<
    String,
>)
    ensures
        argument_views(arguments@) == seq!["--set"@, set_expression(ini, key@, literal@), filepath@],
{
    let mut expression = if ini {
        "[\"config\"][\"".to_owned()
    } else {
        "[\"".to_owned()
    };
    expression.append(key);
    expression.append("\"] ");
    expression.append(literal);
    let mut arguments: Vec<String> = Vec::new();
    arguments.push("--set".to_owned());
    arguments.push(expression);
    arguments.push(filepath.to_owned());
    assert(argument_views(arguments@) =~= seq![
        "--set"@,
        set_expression(ini, key@, literal@),
        filepath@,
    ]);
    arguments
}

/// The arguments with which the tool decrypts `filepath` to its standard
/// output.
pub fn sops_decrypt(filepath: &str) -> (arguments: Vec<String>)
    ensures
        argument_views(arguments@) == decrypt_arguments(filepath@),
{
    let mut arguments: Vec<String> = Vec::new();
    arguments.push("--decrypt".to_owned());
    arguments.push(filepath.to_owned());
    assert(argument_views(arguments@) =~= decrypt_arguments(filepath@));
    arguments
}

/// The arguments with which the tool sets `key` to `value` in a file whose
/// extension is `extension`.
pub fn sops_set_arguments(filepath: &str, extension: &Option<String>, key: &str, value: &str) -> (arguments:
    Vec<String>)
    ensures
        argument_views(arguments@) == set_arguments(
            filepath@,
            is_ini(crate::text::text_of(*extension)),
            key@,
            value@,
        ),
{
    let literal = format_value_for_sops(value);
    let ini_extension = "ini".to_owned();
    let ini = match extension {
        Some(e) => *e == ini_extension,
        None => false,
    };
    set_arguments_for(filepath, ini, key, literal.as_str())
}

/// The arguments with which the tool sets `key` to `value` in `filepath`,
/// in place. Whether the file counts as INI is read off its extension.
pub fn sops_set(filepath: &str, key: &str, value: &str) -> (arguments: Vec<String>)
    ensures
        argument_views(arguments@) == set_arguments(filepath@, true, key@, value@)
            || argument_views(arguments@) == set_arguments(filepath@, false, key@, value@),
{
    let extension = file_extension(filepath);
    sops_set_arguments(filepath, &extension, key, value)
}

/// Reads the outcome of an invocation: the text that the tool printed, or
/// the reason why there is none.
pub fn read_tool_run(run: ProcessRun) -> (r: Result<String, StoreError>)
    ensures
        result_view(r) == tool_result(run),
{
    match run {
        ProcessRun::Unreachable => Err(StoreError::ToolNotFound),
        ProcessRun::Exited { success, stdout, stderr } => {
            if !success {
                Err(StoreError::ToolExecutionFailed(utf8_lossy_text(&stderr)))
            } else {
                match utf8_text(stdout) {
                    Some(text) => {
                        proof {
                            vstd::utf8::encode_utf8_decode_utf8(text@);
                        }
                        Ok(text)
                    },
                    None => Err(StoreError::EncodingError),
                }
            }
        },
    }
}

} // verus!
