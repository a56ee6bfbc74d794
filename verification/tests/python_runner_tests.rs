use arduino_mcp_adapter::python_runner::{
    build_prelude, compose_script, format_console_output, is_blank, is_whitespace_char,
    push_tool_binding, run_python_script, trim_trailing_newlines, ScriptError, ScriptRun,
    PRELUDE_BODY, PRELUDE_HEAD, SCRIPT_MARKER,
};

fn names(list: &[&str]) -> Vec<String> {
    list.iter().map(|s| s.to_string()).collect()
}

#[test]
fn console_output_of_both_streams() {
    assert_eq!(
        format_console_output(String::new(), String::new()),
        "Python script completed without console output."
    );
    assert_eq!(
        format_console_output("\n\n".to_string(), "\n".to_string()),
        "Python script completed without console output."
    );
    assert_eq!(format_console_output("1000\n".to_string(), String::new()), "1000");
    assert_eq!(format_console_output("a\nb\n\n".to_string(), "\n".to_string()), "a\nb");
    assert_eq!(
        format_console_output(String::new(), "warning\n".to_string()),
        "[stderr]\nwarning"
    );
    assert_eq!(
        format_console_output("out\n".to_string(), "err\n".to_string()),
        "out\n[stderr]\nerr"
    );
    assert_eq!(format_console_output(" \n".to_string(), String::new()), " ");
}

#[test]
fn script_that_prints_the_position_gives_the_position() {
    let run = ScriptRun::Exited {
        success: true,
        code: Some(0),
        stdout: "1000\n".to_string(),
        stderr: String::new(),
    };
    assert_eq!(run_python_script(run, 60), Ok("1000".to_string()));
}

#[test]
fn trailing_newlines_are_trimmed() {
    assert_eq!(trim_trailing_newlines("abc\n\n"), "abc");
    assert_eq!(trim_trailing_newlines("abc"), "abc");
    assert_eq!(trim_trailing_newlines("a\nb\n"), "a\nb");
    assert_eq!(trim_trailing_newlines("\n"), "");
    assert_eq!(trim_trailing_newlines(""), "");
    assert_eq!(trim_trailing_newlines("é\r\n"), "é\r");
}

#[test]
fn blank_scripts_hold_only_white_space() {
    assert!(is_blank(""));
    assert!(is_blank(" \t\r\n"));
    assert!(is_blank("\u{00A0}\u{2003}\u{3000}\u{0085}\u{2028}"));
    assert!(!is_blank("pass"));
    assert!(!is_blank("   x   "));
    assert!(!is_blank("\u{200B}"));
    assert!(!is_blank("#"));
}

#[test]
fn white_space_is_what_the_standard_library_says() {
    for code in 0u32..0x11000 {
        if let Some(c) = char::from_u32(code) {
            assert_eq!(is_whitespace_char(c), c.is_whitespace(), "U+{:04X}", code);
        }
    }
}

#[test]
fn failed_runs_are_reported_with_what_was_written() {
    let run = ScriptRun::Exited {
        success: false,
        code: Some(1),
        stdout: "partial\n".to_string(),
        stderr: "Traceback\n".to_string(),
    };
    assert_eq!(
        run_python_script(run, 60),
        Err("Python script failed with exit code 1.\nSTDOUT:\npartial\n\nSTDERR:\nTraceback\n".to_string())
    );
    let run = ScriptRun::Exited {
        success: false,
        code: Some(-9),
        stdout: String::new(),
        stderr: String::new(),
    };
    assert_eq!(
        run_python_script(run, 60),
        Err("Python script failed with exit code -9.\nSTDOUT:\n\nSTDERR:\n".to_string())
    );
    let run = ScriptRun::Exited {
        success: false,
        code: None,
        stdout: String::new(),
        stderr: "killed".to_string(),
    };
    assert_eq!(
        run_python_script(run, 60),
        Err("Python script failed with terminated by signal.\nSTDOUT:\n\nSTDERR:\nkilled".to_string())
    );
    assert_eq!(
        run_python_script(ScriptRun::TimedOut, 60),
        Err("Python script timed out after 60 seconds".to_string())
    );
    assert_eq!(
        run_python_script(ScriptRun::TimedOut, 300),
        Err("Python script timed out after 300 seconds".to_string())
    );
    assert_eq!(
        run_python_script(ScriptRun::Failed("Failed to spawn python3 process".to_string()), 60),
        Err("Failed to spawn python3 process".to_string())
    );
}

#[test]
fn tool_binding_sets_a_helper_on_the_namespace() {
    let mut out = String::from("# ");
    push_tool_binding(&mut out, 12, "\"getPosition\"");
    assert_eq!(
        out,
        "# _tool_fn_12 = _wrap_tool(\"getPosition\")\nsetattr(tools, \"getPosition\", _tool_fn_12)\n\n"
    );
}

#[test]
fn prelude_binds_every_tool_to_the_endpoint() {
    let prelude = build_prelude(&names(&["setSpeed", "get\"Position"]), "http://127.0.0.1:8080/mcp");
    let expected = format!(
        "{}{}{}{}{}",
        PRELUDE_HEAD,
        "\"http://127.0.0.1:8080/mcp\"",
        PRELUDE_BODY,
        "_tool_fn_0 = _wrap_tool(\"setSpeed\")\nsetattr(tools, \"setSpeed\", _tool_fn_0)\n\n",
        "_tool_fn_1 = _wrap_tool(\"get\\\"Position\")\nsetattr(tools, \"get\\\"Position\", _tool_fn_1)\n\n"
    );
    assert_eq!(prelude, expected);
    assert!(prelude.starts_with("import json\nimport urllib.request\nimport urllib.error\n\nMCP_ENDPOINT = \"http://127.0.0.1:8080/mcp\"\n\n\nclass _ToolsNamespace:\n"));
    assert!(prelude.contains("\"method\": \"tools/call\","));
    assert!(prelude.contains("tools = _ToolsNamespace(MCP_ENDPOINT)\n"));
    assert!(prelude.contains("                return \"\\n\".join(texts)\n"));
}

#[test]
fn prelude_without_tools_ends_with_the_wrapper() {
    let prelude = build_prelude(&Vec::new(), "http://127.0.0.1:1/mcp");
    assert!(prelude.ends_with("    _inner.__name__ = name\n    return _inner\n\n"));
}

#[test]
fn tool_names_are_written_as_json_string_literals() {
    let prelude = build_prelude(&names(&["a\\b\n\u{1}é"]), "e");
    assert!(prelude.ends_with(
        "_tool_fn_0 = _wrap_tool(\"a\\\\b\\n\\u0001é\")\nsetattr(tools, \"a\\\\b\\n\\u0001é\", _tool_fn_0)\n\n"
    ));
}

#[test]
fn endpoint_is_written_as_a_quoted_string() {
    let prelude = build_prelude(&Vec::new(), "http://h/\"x\"");
    assert!(prelude.contains("MCP_ENDPOINT = \"http://h/\\\"x\\\"\"\n"));
}

#[test]
fn script_file_is_prelude_marker_and_script() {
    let tools = names(&["getPosition", "runPythonScript"]);
    let endpoint = "http://127.0.0.1:8080/mcp";
    let prelude = build_prelude(&tools, endpoint);
    assert_eq!(SCRIPT_MARKER, "\n# --- User script starts here ---\n");
    assert_eq!(
        compose_script("print(tools.getPosition())", &tools, endpoint),
        Ok(format!("{}{}print(tools.getPosition())\n", prelude, SCRIPT_MARKER))
    );
    assert_eq!(
        compose_script("print(1)\n", &tools, endpoint),
        Ok(format!("{}{}print(1)\n", prelude, SCRIPT_MARKER))
    );
    assert_eq!(
        compose_script("print(1)\n\n", &tools, endpoint),
        Ok(format!("{}{}print(1)\n\n", prelude, SCRIPT_MARKER))
    );
}

#[test]
fn blank_script_is_refused() {
    let tools = names(&["getPosition"]);
    assert_eq!(compose_script("", &tools, "e"), Err(ScriptError::Empty));
    assert_eq!(compose_script(" \n\t", &tools, "e"), Err(ScriptError::Empty));
    assert_eq!(ScriptError::Empty.message(), "Python script must not be empty");
}

#[test]
fn every_character_of_a_tool_name_is_escaped_as_json_asks() {
    fn escaped(c: char) -> String {
        match c {
            '"' => "\\\"".to_string(),
            '\\' => "\\\\".to_string(),
            '\u{08}' => "\\b".to_string(),
            '\u{09}' => "\\t".to_string(),
            '\u{0A}' => "\\n".to_string(),
            '\u{0C}' => "\\f".to_string(),
            '\u{0D}' => "\\r".to_string(),
            c if (c as u32) < 0x20 => format!("\\u00{:02x}", c as u32),
            c => c.to_string(),
        }
    }
    let mut name = String::new();
    let mut expected = String::from("\"");
    for code in (0u32..0x100).chain([0x7FF, 0x800, 0x2028, 0xFFFD, 0x1F600]) {
        let c = char::from_u32(code).unwrap();
        name.push(c);
        expected.push_str(&escaped(c));
    }
    expected.push('"');
    let prelude = build_prelude(&vec![name], "e");
    assert!(prelude.ends_with(&format!(
        "_tool_fn_0 = _wrap_tool({0})\nsetattr(tools, {0}, _tool_fn_0)\n\n",
        expected
    )));
}

#[test]
fn a_script_with_tools_always_gets_its_file() {
    let tools = names(&["getPosition", "runPythonScript", "odd \"name\"\n"]);
    let file = compose_script("print(tools.getPosition())", &tools, "http://127.0.0.1:8080/mcp");
    assert!(file.is_ok());
    assert!(file.unwrap().ends_with("\n# --- User script starts here ---\nprint(tools.getPosition())\n"));
}
