//! The script runner's share that is computation: putting the script file
//! together from a prelude and the user's script, and making the answer of
//! what the interpreter printed and how it ended. The prelude gives the
//! script a namespace `tools` with one callable for each tool, which posts
//! a `tools/call` request to the adapter itself.

use vstd::prelude::*;
use crate::text::{
    debug_quoted, decimal_digits, decimal_text, push_decimal, quote_debug, strings_view,
};

verus! {

/// The prelude before the endpoint.
pub const PRELUDE_HEAD: &'static str = r#"import json
import urllib.request
import urllib.error

MCP_ENDPOINT = "#;

/// The prelude after the endpoint and before the tools: the class behind
/// `tools`, and the function that makes a callable for a tool name.
pub const PRELUDE_BODY: &'static str = r#"


class _ToolsNamespace:
    def __init__(self, endpoint):
        self._endpoint = endpoint
        self._call_id = 0

    def _call(self, name, **kwargs):
        self._call_id += 1
        payload = {
            "jsonrpc": "2.0",
            "id": f"python-runner-{self._call_id}",
            "method": "tools/call",
            "params": {
                "name": name,
                "arguments": kwargs,
            },
        }

        data = json.dumps(payload).encode("utf-8")
        request = urllib.request.Request(
            self._endpoint,
            data=data,
            headers={"Content-Type": "application/json"},
            method="POST",
        )

        try:
            with urllib.request.urlopen(request, timeout=60) as response:
                response_data = response.read().decode("utf-8")
        except urllib.error.HTTPError as exc:
            body = exc.read().decode("utf-8", errors="ignore")
            raise RuntimeError(f"MCP HTTP error calling {name}: {exc.code} {body}") from exc
        except urllib.error.URLError as exc:
            raise RuntimeError(f"Failed to reach MCP endpoint for {name}: {exc}") from exc

        message = json.loads(response_data)
        if message.get("error"):
            err = message["error"]
            raise RuntimeError(
                f"MCP error calling {name}: {err.get('message')} (code {err.get('code')})"
            )

        result = message.get("result") or {}
        content = result.get("content") if isinstance(result, dict) else None
        if isinstance(content, list):
            texts = [item.get("text", "") for item in content if item.get("type") == "text"]
            if len(texts) == 1:
                return texts[0]
            if texts:
                return "\n".join(texts)
        return result


tools = _ToolsNamespace(MCP_ENDPOINT)


def _wrap_tool(name):
    def _inner(**kwargs):
        return tools._call(name, **kwargs)
    _inner.__name__ = name
    return _inner

"#;

/// The line that stands between the prelude and the user's script.
pub const SCRIPT_MARKER: &'static str = "\n# --- User script starts here ---\n";

/// Whether a character is white space as Unicode defines it.
pub open spec fn is_white_space(c: char) -> bool {
    let u = c as u32;
    (0x09 <= u <= 0x0D) || u == 0x20 || u == 0x85 || u == 0xA0 || u == 0x1680 || (0x2000 <= u
        <= 0x200A) || u == 0x2028 || u == 0x2029 || u == 0x202F || u == 0x205F || u == 0x3000
}

/// Whether a text holds nothing but white space.
pub open spec fn is_blank_text(text: Seq<char>) -> bool {
    forall|i: int| 0 <= i < text.len() ==> is_white_space(#[trigger] text[i])
}

/// Whether a character is white space as Unicode defines it.
pub fn is_whitespace_char(c: char) -> (white: bool)
    ensures
        white == is_white_space(c),
{
    let u = c as u32;
    (0x09 <= u && u <= 0x0D) || u == 0x20 || u == 0x85 || u == 0xA0 || u == 0x1680 || (0x2000
        <= u && u <= 0x200A) || u == 0x2028 || u == 0x2029 || u == 0x202F || u == 0x205F || u
        == 0x3000
}

/// Whether a script holds nothing but white space.
pub fn is_blank(script: &str) -> (blank: bool)
    ensures
        blank == is_blank_text(script@),
{
    let n = script.unicode_len();
    let mut i: usize = 0;
    while i < n
        invariant
            i <= n,
            n == script@.len(),
            forall|k: int| 0 <= k < i ==> is_white_space(#[trigger] script@[k]),
        decreases n - i,
    {
        if !is_whitespace_char(script.get_char(i)) {
            return false;
        }
        i = i + 1;
    }
    true
}

/// A text without the line feeds at its end.
pub open spec fn without_trailing_newlines(text: Seq<char>) -> Seq<char>
    decreases text.len(),
{
    if text.len() > 0 && text.last() == '\n' {
        without_trailing_newlines(text.drop_last())
    } else {
        text
    }
}

/// The text without its line feeds at the end is the text up to the
/// position `end`, when a line feed stands at every position from `end`
/// on, and none before it.
proof fn lemma_trailing_newlines(text: Seq<char>, end: int)
    requires
        0 <= end <= text.len(),
        forall|k: int| end <= k < text.len() ==> text[k] == '\n',
        end > 0 ==> text[end - 1] != '\n',
    ensures
        without_trailing_newlines(text) == text.take(end),
    decreases text.len() - end,
{
    if end == text.len() {
        assert(text.take(end) =~= text);
    } else {
        let shorter = text.drop_last();
        lemma_trailing_newlines(shorter, end);
        assert(shorter.take(end) =~= text.take(end));
    }
}

/// A text without the line feeds at its end.
pub fn trim_trailing_newlines(text: &str) -> (trimmed: &str)
    ensures
        trimmed@ == without_trailing_newlines(text@),
{
    let n = text.unicode_len();
    let mut end: usize = n;
    while end > 0 && text.get_char(end - 1) == '\n'
        invariant
            end <= n,
            n == text@.len(),
            forall|k: int| end <= k < n ==> text@[k] == '\n',
        decreases end,
    {
        end = end - 1;
    }
    proof {
        lemma_trailing_newlines(text@, end as int);
    }
    text.substring_char(0, end)
}

/// What is answered for a script that ended well: what it printed, without
/// the line feeds at the end, and what it wrote to the error stream behind
/// a line that says so; where it printed nothing at all, a sentence that
/// says that.
pub open spec fn console_output(stdout: Seq<char>, stderr: Seq<char>) -> Seq<char> {
    let out = without_trailing_newlines(stdout);
    let err = without_trailing_newlines(stderr);
    if out.len() == 0 && err.len() == 0 {
        "Python script completed without console output."@
    } else if err.len() == 0 {
        out
    } else if out.len() == 0 {
        "[stderr]\n"@ + err
    } else {
        out + "\n[stderr]\n"@ + err
    }
}

/// Makes the answer for a script that ended well of its two streams.
pub fn format_console_output(stdout: String, stderr: String) -> (text: String)
    ensures
        text@ == console_output(stdout@, stderr@),
{
    let out = trim_trailing_newlines(stdout.as_str());
    let err = trim_trailing_newlines(stderr.as_str());
    let has_stdout = out.unicode_len() > 0;
    let has_stderr = err.unicode_len() > 0;
    if !has_stdout && !has_stderr {
        String::from_str("Python script completed without console output.")
    } else if !has_stderr {
        String::from_str(out)
    } else if !has_stdout {
        let mut text = String::from_str("[stderr]\n");
        text.append(err);
        text
    } else {
        let mut text = String::from_str(out);
        text.append("\n[stderr]\n");
        text.append(err);
        text
    }
}

/// The lower-case hexadecimal digit for a value below 16.
pub open spec fn lower_hex_digit(d: int) -> char {
    if d < 10 {
        (48 + d) as char
    } else {
        (87 + d) as char
    }
}

/// What stands for one character inside a JSON string: a quote and a
/// backslash behind a backslash, the five control characters that have a
/// short form in that form, any other character below U+0020 as `\u00`
/// and two lower-case hexadecimal digits, and every other character as it
/// is.
pub open spec fn json_escaped_char(c: char) -> Seq<char> {
    let u = c as u32;
    if c == '"' {
        seq!['\\', '"']
    } else if c == '\\' {
        seq!['\\', '\\']
    } else if u == 0x08 {
        seq!['\\', 'b']
    } else if u == 0x09 {
        seq!['\\', 't']
    } else if u == 0x0A {
        seq!['\\', 'n']
    } else if u == 0x0C {
        seq!['\\', 'f']
    } else if u == 0x0D {
        seq!['\\', 'r']
    } else if u < 0x20 {
        seq!['\\', 'u', '0', '0', lower_hex_digit(u as int / 16), lower_hex_digit(u as int % 16)]
    } else {
        seq![c]
    }
}

/// What stands for a text inside a JSON string.
pub open spec fn json_escaped(text: Seq<char>) -> Seq<char>
    decreases text.len(),
{
    if text.len() == 0 {
        Seq::empty()
    } else {
        json_escaped(text.drop_last()) + json_escaped_char(text.last())
    }
}

/// A text as a JSON string: the escaped text in double quotes.
pub open spec fn json_quoted(text: Seq<char>) -> Seq<char> {
    seq!['"'] + json_escaped(text) + seq!['"']
}

/// Calls `serde_json::to_string` on a string. For a string the call always
/// succeeds, since it writes into a vector and nothing else can fail; the
/// result is the string in double quotes, escaped as `json_escaped_char`
/// says.
#[verifier::external_body]
pub(crate) fn json_string_literal(text: &str) -> (literal: Option<String>)
    ensures
        literal is Some,
        literal matches Some(l) ==> l@ == json_quoted(text@),
{
    serde_json::to_string(text).ok()
}

/// The two lines that bind the tool at position `index`: a helper is made
/// for the name and set as an attribute of `tools`. `literal` is the name
/// as a Python string literal.
pub open spec fn tool_binding(index: nat, literal: Seq<char>) -> Seq<char> {
    "_tool_fn_"@ + decimal_digits(index) + " = _wrap_tool("@ + literal + ")\nsetattr(tools, "@
        + literal + ", _tool_fn_"@ + decimal_digits(index) + ")\n\n"@
}

/// The bindings of the first `n` tools, in order.
pub open spec fn tool_bindings(tool_names: Seq<Seq<char>>, n: int) -> Seq<char>
    decreases n,
{
    if n <= 0 {
        Seq::empty()
    } else {
        tool_bindings(tool_names, n - 1) + tool_binding(
            (n - 1) as nat,
            json_quoted(tool_names[n - 1]),
        )
    }
}

/// The prelude for these tools and this endpoint.
pub open spec fn prelude(tool_names: Seq<Seq<char>>, endpoint: Seq<char>) -> Seq<char> {
    PRELUDE_HEAD@ + debug_quoted(endpoint) + PRELUDE_BODY@ + tool_bindings(
        tool_names,
        tool_names.len() as int,
    )
}

/// The file that is run for a script: the prelude, the marker line, the
/// script, and a line feed if the script does not end with one.
pub open spec fn script_file(
    script: Seq<char>,
    tool_names: Seq<Seq<char>>,
    endpoint: Seq<char>,
) -> Seq<char> {
    let body = prelude(tool_names, endpoint) + SCRIPT_MARKER@ + script;
    if script.len() > 0 && script.last() == '\n' {
        body
    } else {
        body.push('\n')
    }
}

/// Why no script file was made.
#[derive(Debug, Clone, Copy, PartialEq, Eq, Structural)]
pub enum ScriptError {
    /// The script holds nothing but white space.
    Empty,
}

impl ScriptError {
    /// The error in words.
    pub open spec fn message_spec(self) -> Seq<char> {
        match self {
            ScriptError::Empty => "Python script must not be empty"@,
        }
    }

    /// The error in words.
    pub fn message(&self) -> (text: String)
        ensures
            text@ == self.message_spec(),
    {
        match self {
            ScriptError::Empty => String::from_str("Python script must not be empty"),
        }
    }
}

/// Appends the two lines that bind the tool at position `index`.
pub fn push_tool_binding(out: &mut String, index: usize, literal: &str)
    ensures
        final(out)@ == old(out)@ + tool_binding(index as nat, literal@),
{
    out.append("_tool_fn_");
    push_decimal(out, index as u64);
    out.append(" = _wrap_tool(");
    out.append(literal);
    out.append(")\nsetattr(tools, ");
    out.append(literal);
    out.append(", _tool_fn_");
    push_decimal(out, index as u64);
    out.append(")\n\n");
    proof {
        assert(out@ =~= old(out)@ + tool_binding(index as nat, literal@));
    }
}

/// Builds the prelude for these tools and this endpoint.
pub fn build_prelude(tool_names: &Vec<String>, endpoint: &str) -> (text: String)
    ensures
        text@ == prelude(strings_view(tool_names@), endpoint@),
{
    let ghost names = strings_view(tool_names@);
    let mut text = String::from_str(PRELUDE_HEAD);
    let quoted = quote_debug(endpoint);
    text.append(quoted.as_str());
    text.append(PRELUDE_BODY);
    let ghost start = text@;
    proof {
        assert(start + tool_bindings(names, 0) =~= start);
    }
    let mut i: usize = 0;
    while i < tool_names.len()
        invariant
            i <= tool_names.len(),
            names == strings_view(tool_names@),
            start == PRELUDE_HEAD@ + debug_quoted(endpoint@) + PRELUDE_BODY@,
            text@ == start + tool_bindings(names, i as int),
        decreases tool_names.len() - i,
    {
        let literal = json_string_literal(tool_names[i].as_str()).unwrap();
        push_tool_binding(&mut text, i, literal.as_str());
        proof {
            assert(names[i as int] == tool_names@[i as int]@);
            assert(text@ =~= start + tool_bindings(names, i + 1));
        }
        i = i + 1;
    }
    text
}

/// What `compose_script` returned, as a value.
pub open spec fn script_view(result: Result<String, ScriptError>) -> Result<
    Seq<char>,
    ScriptError,
> {
    match result {
        Ok(text) => Ok(text@),
        Err(e) => Err(e),
    }
}

/// The script file for a script, or why there is none: a script that holds
/// nothing but white space is refused.
pub open spec fn composed_script(
    script: Seq<char>,
    tool_names: Seq<Seq<char>>,
    endpoint: Seq<char>,
) -> Result<Seq<char>, ScriptError> {
    if is_blank_text(script) {
        Err(ScriptError::Empty)
    } else {
        Ok(script_file(script, tool_names, endpoint))
    }
}

/// Puts the script file together. A script that holds nothing but white
/// space is refused; every other script gets its file.
pub fn compose_script(script: &str, tool_names: &Vec<String>, endpoint: &str) -> (result:
    Result<String, ScriptError>)
    ensures
        script_view(result) == composed_script(script@, strings_view(tool_names@), endpoint@),
{
    if is_blank(script) {
        return Err(ScriptError::Empty);
    }
    let mut text = build_prelude(tool_names, endpoint);
    text.append(SCRIPT_MARKER);
    text.append(script);
    let n = script.unicode_len();
    if !(n > 0 && script.get_char(n - 1) == '\n') {
        text.push('\n');
    }
    Ok(text)
}

/// How a run of the interpreter ended.
#[derive(Debug, Clone, PartialEq, Eq)]
pub enum ScriptRun {
    /// The interpreter ran to its end, with this exit code if it was not
    /// ended by a signal, and wrote this to its two streams.
    Exited { success: bool, code: Option<i32>, stdout: String, stderr: String },
    /// The interpreter was still running when the time was up, and was
    /// killed.
    TimedOut,
    /// The interpreter could not be run, or its output could not be had.
    Failed(String),
}

/// How a run ended, as a mathematical value.
pub enum RunView {
    Exited { success: bool, code: Option<i32>, stdout: Seq<char>, stderr: Seq<char> },
    TimedOut,
    Failed(Seq<char>),
}

impl View for ScriptRun {
    type V = RunView;

    open spec fn view(&self) -> RunView {
        match self {
            ScriptRun::Exited { success, code, stdout, stderr } => RunView::Exited {
                success: *success,
                code: *code,
                stdout: stdout@,
                stderr: stderr@,
            },
            ScriptRun::TimedOut => RunView::TimedOut,
            ScriptRun::Failed(msg) => RunView::Failed(msg@),
        }
    }
}

/// How the interpreter ended, in words.
pub open spec fn exit_text(code: Option<i32>) -> Seq<char> {
    match code {
        Some(c) => "exit code "@ + decimal_text(c as int),
        None => "terminated by signal"@,
    }
}

/// The message for a script that did not end well, with what it wrote.
pub open spec fn failure_text(code: Option<i32>, stdout: Seq<char>, stderr: Seq<char>) -> Seq<
    char,
> {
    "Python script failed with "@ + exit_text(code) + ".\nSTDOUT:\n"@ + stdout
        + "\nSTDERR:\n"@ + stderr
}

/// The message for a script that ran out of time.
pub open spec fn timeout_text(timeout_secs: u64) -> Seq<char> {
    "Python script timed out after "@ + decimal_digits(timeout_secs as nat) + " seconds"@
}

/// What a run gives: the output of a script that ended well, or why there
/// is none.
pub open spec fn run_result(run: RunView, timeout_secs: u64) -> Result<Seq<char>, Seq<char>> {
    match run {
        RunView::Exited { success, code, stdout, stderr } => {
            if success {
                Ok(console_output(stdout, stderr))
            } else {
                Err(failure_text(code, stdout, stderr))
            }
        },
        RunView::TimedOut => Err(timeout_text(timeout_secs)),
        RunView::Failed(msg) => Err(msg),
    }
}

/// What `run_python_script` returned, as a value.
pub open spec fn output_view(result: Result<String, String>) -> Result<Seq<char>, Seq<char>> {
    match result {
        Ok(text) => Ok(text@),
        Err(msg) => Err(msg@),
    }
}

/// Makes the result of a script of how the interpreter ended. The script
/// was given `timeout_secs` seconds.
pub fn run_python_script(run: ScriptRun, timeout_secs: u64) -> (result: Result<String, String>)
    ensures
        output_view(result) == run_result(run@, timeout_secs),
{
    match run {
        ScriptRun::Exited { success, code, stdout, stderr } => {
            if success {
                Ok(format_console_output(stdout, stderr))
            } else {
                let mut text = String::from_str("Python script failed with ");
                match code {
                    Some(c) => {
                        text.append("exit code ");
                        let number = crate::text::decimal(c as i64);
                        text.append(number.as_str());
                    },
                    None => {
                        text.append("terminated by signal");
                    },
                }
                text.append(".\nSTDOUT:\n");
                text.append(stdout.as_str());
                text.append("\nSTDERR:\n");
                text.append(stderr.as_str());
                proof {
                    assert(text@ =~= failure_text(code, stdout@, stderr@));
                }
                Err(text)
            }
        },
        ScriptRun::TimedOut => {
            let mut text = String::from_str("Python script timed out after ");
            push_decimal(&mut text, timeout_secs);
            text.append(" seconds");
            Err(text)
        },
        ScriptRun::Failed(msg) => Err(msg),
    }
}

} // verus!
