use python_environment_select::commands::{recognize, Command};
use python_environment_select::discovery::{ProcessOutput, Worktree};
use python_environment_select::environment::{PythonEnvironment, PythonEnvironmentSelectExtension};
use python_environment_select::paths::{
    activate_script_path, config_file_path, interpreter_path, join, FileSet,
};
use python_environment_select::render::{join_strings, pad, push_decimal, render, widest_name};
use python_environment_select::report::{read_row, read_rows, split_lines};
use python_environment_select::scanner::{DirEntry, Listing};
use python_environment_select::text::{chars_of, is_blank_char, run_end, string_of, CharClass};

fn files(paths: &[&str]) -> FileSet {
    let mut present = FileSet::new();
    for p in paths {
        present.insert(p.to_string());
    }
    present
}

fn file(name: &str) -> DirEntry {
    DirEntry { name: name.to_string(), is_dir: false, listing: Listing::Entries(vec![]) }
}

fn dir(name: &str, entries: Vec<DirEntry>) -> DirEntry {
    DirEntry { name: name.to_string(), is_dir: true, listing: Listing::Entries(entries) }
}

fn locked(name: &str, why: &str) -> DirEntry {
    DirEntry { name: name.to_string(), is_dir: true, listing: Listing::Unreadable(why.to_string()) }
}

fn env(name: &str, path: &str) -> PythonEnvironment {
    PythonEnvironment { name: name.to_string(), python_path: path.to_string() }
}

fn pairs(envs: &Vec<PythonEnvironment>) -> Vec<(String, String)> {
    envs.iter().map(|e| (e.name.clone(), e.python_path.clone())).collect()
}

fn pair(name: &str, path: &str) -> (String, String) {
    (name.to_string(), path.to_string())
}

fn no_conda() -> Result<ProcessOutput, String> {
    Err("not installed".to_string())
}

#[test]
fn join_puts_one_separator() {
    assert_eq!(join("/a", "bin"), "/a/bin");
    assert_eq!(join("/a/", "bin"), "/a/bin");
    assert_eq!(join("", "bin"), "bin");
    assert_eq!(join("/", "bin"), "/bin");
    assert_eq!(join("rel", "x"), "rel/x");
}

#[test]
fn marker_paths() {
    assert_eq!(activate_script_path("/p/venv"), "/p/venv/bin/activate");
    assert_eq!(config_file_path("/p/venv"), "/p/venv/pyvenv.cfg");
    assert_eq!(interpreter_path("/p/venv"), "/p/venv/bin/python");
}

#[test]
fn file_set_contains_what_was_inserted() {
    let present = files(&["/a", "/b/c"]);
    assert!(present.contains(&"/a".to_string()));
    assert!(present.contains(&"/b/c".to_string()));
    assert!(!present.contains(&"/b".to_string()));
    assert!(!FileSet::new().contains(&"".to_string()));
}

#[test]
fn is_venv_by_either_marker() {
    assert!(PythonEnvironmentSelectExtension::is_venv("/v", &files(&["/v/bin/activate"])));
    assert!(PythonEnvironmentSelectExtension::is_venv("/v", &files(&["/v/pyvenv.cfg"])));
    assert!(!PythonEnvironmentSelectExtension::is_venv("/v", &files(&["/v/bin/python"])));
    assert!(!PythonEnvironmentSelectExtension::is_venv("/v", &files(&["/w/pyvenv.cfg"])));
    assert!(!PythonEnvironmentSelectExtension::is_venv("/v", &files(&["/v/Scripts/activate"])));
}

#[test]
fn find_python_executable_only_bin_python() {
    assert_eq!(
        PythonEnvironmentSelectExtension::find_python_executable("/v", &files(&["/v/bin/python"])),
        Some("/v/bin/python".to_string())
    );
    assert_eq!(
        PythonEnvironmentSelectExtension::find_python_executable("/v", &files(&["/v/bin/python3"])),
        None
    );
}

#[test]
fn scan_single_environment() {
    let present = files(&["/proj/sub/deep/venv/pyvenv.cfg", "/proj/sub/deep/venv/bin/python"]);
    let tree = Listing::Entries(vec![
        file("README.md"),
        dir("src", vec![file("main.py")]),
        dir("sub", vec![dir("deep", vec![dir("venv", vec![dir("bin", vec![file("python")])])])]),
    ]);
    let found = PythonEnvironmentSelectExtension::find_venvs_rec("/proj", &tree, &present);
    assert_eq!(pairs(&found), vec![pair("venv", "/proj/sub/deep/venv/bin/python")]);
}

#[test]
fn scan_environment_without_interpreter_is_skipped_whole() {
    let present = files(&[
        "/proj/outer/pyvenv.cfg",
        "/proj/outer/inner/pyvenv.cfg",
        "/proj/outer/inner/bin/python",
    ]);
    let tree = Listing::Entries(vec![dir(
        "outer",
        vec![dir("inner", vec![]), locked("secret", "denied")],
    )]);
    let found = PythonEnvironmentSelectExtension::find_venvs_rec("/proj", &tree, &present);
    assert!(found.is_empty());
}

#[test]
fn scan_unreadable_directory_is_reported_and_siblings_scanned() {
    let present = files(&["/proj/b/bin/activate", "/proj/b/bin/python"]);
    let tree = Listing::Entries(vec![locked("a", "Permission denied (os error 13)"), dir("b", vec![])]);
    let found = PythonEnvironmentSelectExtension::find_venvs_rec("/proj", &tree, &present);
    assert_eq!(
        pairs(&found),
        vec![
            pair("Error reading directory (/proj/a): Permission denied (os error 13)", ""),
            pair("b", "/proj/b/bin/python"),
        ]
    );
    assert!(found[0].is_diagnostic());
    assert!(!found[1].is_diagnostic());
}

#[test]
fn scan_unreadable_root() {
    let found = PythonEnvironmentSelectExtension::find_venvs_rec(
        "/gone",
        &Listing::Unreadable("No such file or directory".to_string()),
        &FileSet::new(),
    );
    assert_eq!(
        pairs(&found),
        vec![pair("Error reading directory (/gone): No such file or directory", "")]
    );
}

#[test]
fn scan_keeps_listing_order_and_ignores_files() {
    let present = files(&[
        "/r/z/pyvenv.cfg",
        "/r/z/bin/python",
        "/r/m/a/pyvenv.cfg",
        "/r/m/a/bin/python",
        "/r/b/bin/activate",
        "/r/b/bin/python",
        "/r/f/pyvenv.cfg",
        "/r/f/bin/python",
    ]);
    let tree = Listing::Entries(vec![
        dir("z", vec![]),
        dir("m", vec![dir("a", vec![])]),
        file("f"),
        dir("b", vec![]),
    ]);
    let found = PythonEnvironmentSelectExtension::find_venvs_rec("/r", &tree, &present);
    assert_eq!(
        pairs(&found),
        vec![
            pair("z", "/r/z/bin/python"),
            pair("a", "/r/m/a/bin/python"),
            pair("b", "/r/b/bin/python"),
        ]
    );
}

#[test]
fn scan_empty_tree() {
    let found = PythonEnvironmentSelectExtension::find_venvs_rec(
        "/r",
        &Listing::Entries(vec![]),
        &FileSet::new(),
    );
    assert!(found.is_empty());
}

#[test]
fn parse_header_boundary_and_two_data_lines() {
    let text = "# header\nName  Path\nenvA  /a\nenvB  /b  extra";
    let present = files(&["/a/bin/python", "/b/bin/python"]);
    let envs = PythonEnvironmentSelectExtension::parse_conda_output(text, &present).unwrap();
    assert_eq!(pairs(&envs), vec![pair("envA", "/a/bin/python"), pair("envB", "/b/bin/python")]);
}

#[test]
fn parse_drops_environments_without_interpreter() {
    let text = "# header\nName  Path\nenvA  /a\nenvB  /b  extra";
    let envs = PythonEnvironmentSelectExtension::parse_conda_output(text, &FileSet::new()).unwrap();
    assert!(envs.is_empty());
    let only_b = files(&["/b/bin/python"]);
    let envs = PythonEnvironmentSelectExtension::parse_conda_output(text, &only_b).unwrap();
    assert_eq!(pairs(&envs), vec![pair("envB", "/b/bin/python")]);
}

#[test]
fn parse_single_token_line_yields_nothing() {
    let text = "# h\n#\nboundary\nlonely\n\n   \nname /x\n";
    let present = files(&["/x/bin/python", "lonely/bin/python"]);
    let envs = PythonEnvironmentSelectExtension::parse_conda_output(text, &present).unwrap();
    assert_eq!(pairs(&envs), vec![pair("name", "/x/bin/python")]);
}

#[test]
fn parse_first_line_after_header_is_dropped() {
    let present = files(&["/a/bin/python", "/b/bin/python"]);
    let envs = PythonEnvironmentSelectExtension::parse_conda_output("a /a\nb /b", &present).unwrap();
    assert_eq!(pairs(&envs), vec![pair("b", "/b/bin/python")]);
    let envs = PythonEnvironmentSelectExtension::parse_conda_output("", &present).unwrap();
    assert!(envs.is_empty());
    let envs = PythonEnvironmentSelectExtension::parse_conda_output("# a /a\n# b /b", &present).unwrap();
    assert!(envs.is_empty());
}

#[test]
fn parse_later_hash_lines_are_data() {
    let present = files(&["/a/bin/python"]);
    let envs =
        PythonEnvironmentSelectExtension::parse_conda_output("#\n\n# /a\n", &present).unwrap();
    assert_eq!(pairs(&envs), vec![pair("#", "/a/bin/python")]);
}

#[test]
fn parse_active_marker_shifts_columns() {
    let present = files(&["/a/bin/python", "*/bin/python"]);
    let envs = PythonEnvironmentSelectExtension::parse_conda_output(
        "# conda environments:\n#\nbase  *  /a\n",
        &present,
    )
    .unwrap();
    assert!(envs.is_empty());
    let envs = PythonEnvironmentSelectExtension::parse_conda_output(
        "# conda environments:\n#\n\nbase  *  /a\n",
        &present,
    )
    .unwrap();
    assert_eq!(pairs(&envs), vec![pair("base", "*/bin/python")]);
}

#[test]
fn parse_tabs_carriage_returns_and_wide_blanks() {
    let present = files(&["/a/bin/python", "/b/bin/python"]);
    let text = "#\r\nboundary\r\n\tenvA\t/a\r\nenvB\u{3000}/b\u{a0}x\r\n";
    let envs = PythonEnvironmentSelectExtension::parse_conda_output(text, &present).unwrap();
    assert_eq!(pairs(&envs), vec![pair("envA", "/a/bin/python"), pair("envB", "/b/bin/python")]);
}

#[test]
fn read_rows_gives_names_and_roots() {
    let rows = read_rows("# h\nhead\none /1 x y\ntwo\nthree /3\n");
    let got: Vec<(String, String)> = rows.iter().map(|r| (r.name.clone(), r.root.clone())).collect();
    assert_eq!(got, vec![pair("one", "/1"), pair("three", "/3")]);
}

#[test]
fn read_row_needs_two_tokens() {
    assert!(read_row(&chars_of("")).is_none());
    assert!(read_row(&chars_of("   ")).is_none());
    assert!(read_row(&chars_of(" one ")).is_none());
    let row = read_row(&chars_of(" one  two three")).unwrap();
    assert_eq!((row.name.as_str(), row.root.as_str()), ("one", "two"));
}

#[test]
fn split_lines_like_a_line_reader() {
    let as_strings = |s: &str| -> Vec<String> {
        split_lines(&chars_of(s)).iter().map(|l| l.iter().collect()).collect()
    };
    assert_eq!(as_strings(""), Vec::<String>::new());
    assert_eq!(as_strings("a"), vec!["a"]);
    assert_eq!(as_strings("a\n"), vec!["a"]);
    assert_eq!(as_strings("a\n\nb"), vec!["a", "", "b"]);
    assert_eq!(as_strings("\n"), vec![""]);
}

#[test]
fn text_helpers() {
    let chars = chars_of("ab  c\u{e9}");
    assert_eq!(chars, vec!['a', 'b', ' ', ' ', 'c', '\u{e9}']);
    assert_eq!(string_of(&chars, 1, 5), "b  c");
    assert_eq!(string_of(&chars, 2, 2), "");
    assert_eq!(run_end(&chars, 0, CharClass::Word), 2);
    assert_eq!(run_end(&chars, 2, CharClass::Blank), 4);
    assert_eq!(run_end(&chars, 4, CharClass::Word), 6);
    assert_eq!(run_end(&chars, 0, CharClass::Blank), 0);
    assert_eq!(run_end(&chars_of("ab\ncd"), 0, CharClass::LineBody), 2);
    assert_eq!(run_end(&chars, 6, CharClass::LineBody), 6);
    for c in ['\t', '\n', '\u{b}', '\u{c}', '\r', ' ', '\u{85}', '\u{a0}', '\u{1680}', '\u{2000}',
        '\u{200a}', '\u{2028}', '\u{2029}', '\u{202f}', '\u{205f}', '\u{3000}']
    {
        assert!(is_blank_char(c));
    }
    for c in ['a', '#', '/', '\u{200b}', '\u{1c}', '\u{0}'] {
        assert!(!is_blank_char(c));
    }
}

#[test]
fn blank_agrees_with_char_is_whitespace() {
    let mut v: u32 = 0;
    while v < 0x11000 {
        if let Some(c) = char::from_u32(v) {
            assert_eq!(is_blank_char(c), c.is_whitespace());
        }
        v += 1;
    }
}

#[test]
fn render_empty_list() {
    assert_eq!(render(&vec![]), "======\n  ======\nlen: 0");
}

#[test]
fn render_aligns_names() {
    let envs = vec![env("x", "/x/bin/python"), env("longname", "/l/bin/python")];
    assert_eq!(
        render(&envs),
        "======\n x           /x/bin/python\nlongname    /l/bin/python ======\nlen: 2"
    );
}

#[test]
fn render_diagnostic_has_trailing_blank() {
    let envs = vec![env("oops", ""), env("ab", "/p")];
    assert_eq!(render(&envs), "======\n oops    \nab      /p ======\nlen: 2");
}

#[test]
fn render_width_is_in_bytes_and_padding_in_characters() {
    let envs = vec![env("\u{e9}", "/e"), env("a", "/a")];
    assert_eq!(widest_name(&envs), 2);
    assert_eq!(render(&envs), "======\n \u{e9}     /e\na     /a ======\nlen: 2");
}

#[test]
fn render_counts_in_decimal() {
    let mut envs = Vec::new();
    for _ in 0..12 {
        envs.push(env("", ""));
    }
    let text = render(&envs);
    assert!(text.ends_with(" ======\nlen: 12"));
    let mut s = String::from("n=");
    push_decimal(&mut s, 0);
    push_decimal(&mut s, 7);
    push_decimal(&mut s, 10);
    push_decimal(&mut s, 9051);
    assert_eq!(s, "n=07109051");
}

#[test]
fn pad_and_join() {
    assert_eq!(pad("ab", 5), "ab   ");
    assert_eq!(pad("abcdef", 3), "abcdef");
    assert_eq!(pad("", 0), "");
    assert_eq!(join_strings(&vec![], ", "), "");
    assert_eq!(join_strings(&vec!["a".to_string()], ", "), "a");
    assert_eq!(join_strings(&vec!["a".to_string(), "".to_string(), "c".to_string()], ", "), "a, , c");
}

#[test]
fn conda_failures_are_messages() {
    let present = FileSet::new();
    let r = PythonEnvironmentSelectExtension::find_envs_from_conda(&no_conda(), &present);
    assert_eq!(r.unwrap_err(), "Failed to execute command: not installed");
    let failed = Ok(ProcessOutput {
        success: false,
        stdout: "#\n\na /a\n".to_string(),
        stderr: "boom".to_string(),
    });
    let r = PythonEnvironmentSelectExtension::find_envs_from_conda(&failed, &files(&["/a/bin/python"]));
    assert_eq!(r.unwrap_err(), "Command executed with failing error code: boom");
    let fine = Ok(ProcessOutput {
        success: true,
        stdout: "#\n\na /a\n".to_string(),
        stderr: "warn".to_string(),
    });
    let r = PythonEnvironmentSelectExtension::find_envs_from_conda(&fine, &files(&["/a/bin/python"]));
    assert_eq!(pairs(&r.unwrap()), vec![pair("a", "/a/bin/python")]);
}

#[test]
fn all_environments_tree_first_then_report_without_dedup() {
    let present = files(&["/p/v/pyvenv.cfg", "/p/v/bin/python"]);
    let worktree = Worktree {
        root_path: "/p".to_string(),
        listing: Listing::Entries(vec![dir("v", vec![])]),
    };
    let conda = Ok(ProcessOutput {
        success: true,
        stdout: "# conda environments:\n#\nv  /p/v\n".to_string(),
        stderr: String::new(),
    });
    let ext = PythonEnvironmentSelectExtension::new();
    let all = ext.get_all_python_environments(Some(&worktree), &conda, &present);
    assert_eq!(pairs(&all), vec![pair("v", "/p/v/bin/python")]);
    let conda = Ok(ProcessOutput {
        success: true,
        stdout: "# conda environments:\n#\n\nv  /p/v\n".to_string(),
        stderr: String::new(),
    });
    let all = ext.get_all_python_environments(Some(&worktree), &conda, &present);
    assert_eq!(pairs(&all), vec![pair("v", "/p/v/bin/python"), pair("v", "/p/v/bin/python")]);
    let all = ext.get_all_python_environments(None, &conda, &present);
    assert_eq!(pairs(&all), vec![pair("v", "/p/v/bin/python")]);
    let all = ext.get_all_python_environments(Some(&worktree), &no_conda(), &present);
    assert_eq!(pairs(&all), vec![pair("v", "/p/v/bin/python")]);
    let all = ext.get_all_python_environments(None, &no_conda(), &present);
    assert!(all.is_empty());
}

#[test]
fn worktree_scan_starts_at_root_path() {
    let present = files(&["/p/v/bin/activate", "/p/v/bin/python"]);
    let worktree = Worktree {
        root_path: "/p".to_string(),
        listing: Listing::Entries(vec![dir("v", vec![])]),
    };
    let found = PythonEnvironmentSelectExtension::find_venvs_from_worktree(&worktree, &present);
    assert_eq!(pairs(&found), vec![pair("v", "/p/v/bin/python")]);
}

#[test]
fn unknown_command_is_an_error_that_names_it() {
    let ext = PythonEnvironmentSelectExtension::new();
    let present = files(&["/p/v/pyvenv.cfg", "/p/v/bin/python"]);
    let worktree = Worktree {
        root_path: "/p".to_string(),
        listing: Listing::Entries(vec![dir("v", vec![])]),
    };
    let args = vec!["x".to_string()];
    for name in ["", "pyenv", "pyenvlst ", "PYENVLST", "other"] {
        let r = ext.run_slash_command(name, &args, Some(&worktree), &no_conda(), &present);
        assert_eq!(r.unwrap_err(), format!("unknown command: {}", name));
        let c = ext.complete_slash_command_argument(name, &args);
        assert_eq!(c.unwrap_err(), format!("unknown command: {}", name));
        assert_eq!(recognize(name), None);
    }
}

#[test]
fn known_commands_complete_with_nothing() {
    let ext = PythonEnvironmentSelectExtension::new();
    for name in ["pyenvcur", "pyenvlst", "pyenvselect"] {
        assert!(ext.complete_slash_command_argument(name, &vec![]).unwrap().is_empty());
    }
    assert_eq!(recognize("pyenvcur"), Some(Command::Current));
    assert_eq!(recognize("pyenvlst"), Some(Command::List));
    assert_eq!(recognize("pyenvselect"), Some(Command::Select));
}

#[test]
fn echo_commands_join_arguments() {
    let ext = PythonEnvironmentSelectExtension::new();
    let present = FileSet::new();
    for name in ["pyenvcur", "pyenvselect"] {
        let r = ext.run_slash_command(name, &vec![], None, &no_conda(), &present);
        assert_eq!(r.unwrap_err(), "nothing to echo");
        let args = vec!["h\u{e9}".to_string(), "there".to_string()];
        let out = ext.run_slash_command(name, &args, None, &no_conda(), &present).unwrap();
        assert_eq!(out.text, "h\u{e9} there");
        assert_eq!(out.sections.len(), 1);
        assert_eq!(out.sections[0].start, 0);
        assert_eq!(out.sections[0].end, 9);
        assert_eq!(out.sections[0].label, "Echo");
    }
}

#[test]
fn list_command_renders_all_environments() {
    let ext = PythonEnvironmentSelectExtension::new();
    let present = files(&["/p/v/pyvenv.cfg", "/p/v/bin/python", "/opt/base/bin/python"]);
    let worktree = Worktree {
        root_path: "/p".to_string(),
        listing: Listing::Entries(vec![dir("v", vec![])]),
    };
    let conda = Ok(ProcessOutput {
        success: true,
        stdout: "# conda environments:\n#\n\nbase  /opt/base\n".to_string(),
        stderr: String::new(),
    });
    let out = ext.run_slash_command("pyenvlst", &vec![], Some(&worktree), &conda, &present).unwrap();
    assert_eq!(
        out.text,
        "======\n v       /p/v/bin/python\nbase    /opt/base/bin/python ======\nlen: 2"
    );
    assert_eq!(out.sections.len(), 1);
    assert_eq!(out.sections[0].start, 0);
    assert_eq!(out.sections[0].end, out.text.len());
    assert_eq!(out.sections[0].label, "Python Environments");
    let out = ext.run_slash_command("pyenvlst", &vec![], None, &no_conda(), &present).unwrap();
    assert_eq!(out.text, "======\n  ======\nlen: 0");
}

#[test]
fn rows_put_paths_in_one_column() {
    let envs = vec![env("a", "/1"), env("bcd", "/2"), env("", "/3"), env("bc", "")];
    let text = render(&envs);
    let body = &text["======\n ".len()..text.len() - " ======\nlen: 4".len()];
    let rows: Vec<&str> = body.split('\n').collect();
    assert_eq!(rows, vec!["a      /1", "bcd    /2", "       /3", "bc     "]);
}

#[test]
fn marker_paths_below_an_empty_path_are_relative() {
    assert_eq!(activate_script_path(""), "bin/activate");
    assert_eq!(config_file_path(""), "pyvenv.cfg");
    assert_eq!(interpreter_path(""), "bin/python");
}

#[test]
fn unknown_command_message_is_exact() {
    let ext = PythonEnvironmentSelectExtension::new();
    let r = ext.run_slash_command("bogus", &vec![], None, &no_conda(), &FileSet::new());
    assert_eq!(r.unwrap_err(), "unknown command: bogus");
    let c = ext.complete_slash_command_argument("bogus", &vec![]);
    assert_eq!(c.unwrap_err(), "unknown command: bogus");
}
