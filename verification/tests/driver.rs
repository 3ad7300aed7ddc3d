use ignis::driver::{
    c_output_paths, last_segment, lua_output_paths, App, Backend, BuildCommand, Cli, CodeResult, DebugPrint,
    Diagnostic, DiagnosticList, SubCommand, prompt_action, PromptAction,
};
use ignis::text::{find_first, i64_to_text, remove_ign, repeat_space, trim_text, u64_to_text};
use ignis::token::Span;

fn cli(path: &str) -> Cli {
    Cli {
        subcommand: SubCommand::Build(BuildCommand { file_path: path.to_string() }),
        backend: Backend::Lua,
        debug: vec![DebugPrint::Ir],
    }
}

#[test]
fn app_new_takes_build_path() {
    let app = App::new(cli("src/main.ign"));
    assert_eq!(app.file_path, "src/main.ign");
    assert!(app.build);
    assert!(!app.relp);
    assert_eq!(app.source, "");
    assert_eq!(app.args.backend, Backend::Lua);
}

#[test]
fn code_result_new() {
    let r = CodeResult::new("print(1)\n".to_string(), "a/b.ign".to_string());
    assert_eq!(r.code, "print(1)\n");
    assert_eq!(r.file_name, "a/b.ign");
}

#[test]
fn lua_paths() {
    let p = lua_output_paths("src/lib/main.ign");
    assert_eq!(p.directory, "build/src/lib");
    assert_eq!(p.file, "build/src/lib/main.lua");
    let p = lua_output_paths("main.ign");
    assert_eq!(p.directory, "build/");
    assert_eq!(p.file, "build//main.lua");
    let p = lua_output_paths("a/x.ign.ign");
    assert_eq!(p.file, "build/a/x.lua");
    let p = lua_output_paths("dir/");
    assert_eq!(p.directory, "build/dir");
    assert_eq!(p.file, "build/dir/.lua");
}

#[test]
fn c_paths() {
    let p = c_output_paths("src/main.ign");
    assert_eq!(p.directory, "build/src");
    assert_eq!(p.source_file, "build/src/main.c");
    assert_eq!(p.executable, "build/src/main");
}

#[test]
fn text_helpers() {
    assert_eq!(last_segment("a/b/c.ign"), "c.ign");
    assert_eq!(last_segment("plain"), "plain");
    assert_eq!(remove_ign("x.ignore.ign"), "xore");
    assert_eq!(remove_ign("..ignign"), ".ign");
    assert_eq!(remove_ign(".ig"), ".ig");
    assert_eq!(repeat_space(3), "   ");
    assert_eq!(u64_to_text(0), "0");
    assert_eq!(u64_to_text(1090), "1090");
    assert_eq!(u64_to_text(u64::MAX), u64::MAX.to_string());
    assert_eq!(i64_to_text(-305), "-305");
}

fn diagnostic(line: usize, start: usize, end: usize) -> Diagnostic {
    Diagnostic {
        module_name: Some("src/main.ign".to_string()),
        code: "E0001".to_string(),
        hint: Some("undefined variable".to_string()),
        span: Span::new("src/main.ign".to_string(), line, start, end, "foo".to_string()),
    }
}

#[test]
fn diagnostic_lines_outside_prompt() {
    let app = App::new(cli("src/main.ign"));
    let list = DiagnosticList { diagnostics: vec![diagnostic(12, 4, 7)] };
    assert_eq!(
        app.diagnostic_lines(&list),
        vec!["- src/main.ign", "E0001: undefined variable", "12 | foo", "Column: 3"]
    );
}

#[test]
fn diagnostic_lines_in_prompt() {
    let mut app = App::new(cli("src/main.ign"));
    app.relp = true;
    let list = DiagnosticList { diagnostics: vec![diagnostic(1, 9, 2), diagnostic(2, 0, 0)] };
    assert_eq!(
        app.diagnostic_lines(&list),
        vec!["- src/main.ign", "E0001: undefined variable", "- src/main.ign", "E0001: undefined variable"]
    );
    let empty = DiagnosticList { diagnostics: vec![] };
    assert!(app.diagnostic_lines(&empty).is_empty());
}

#[test]
fn prompt_actions() {
    assert!(matches!(prompt_action("", 0), PromptAction::EndOfInput));
    assert!(matches!(prompt_action("\n", 1), PromptAction::Skip));
    assert!(matches!(prompt_action("  exit \n", 8), PromptAction::Exit));
    match prompt_action("load  src/a.ign \n", 17) {
        PromptAction::Load(path) => assert_eq!(path, "src/a.ign"),
        _ => panic!("expected Load"),
    }
    match prompt_action("let x = 1\n", 10) {
        PromptAction::Evaluate(source) => assert_eq!(source, "let x = 1\n"),
        _ => panic!("expected Evaluate"),
    }
    match prompt_action("download x load y\n", 18) {
        PromptAction::Load(path) => assert_eq!(path, "x"),
        _ => panic!("expected Load"),
    }
    assert!(matches!(prompt_action("exits\n", 6), PromptAction::Evaluate(_)));
}

#[test]
fn trimming() {
    assert_eq!(trim_text("\t a b \u{3000}\n"), "a b");
    assert_eq!(trim_text("   "), "");
    assert_eq!(trim_text(""), "");
    assert_eq!(find_first("abcabc", "ca"), Some(2));
    assert_eq!(find_first("abc", "x"), None);
    assert_eq!(find_first("ab", "abc"), None);
    assert_eq!(find_first("ab", ""), Some(0));
}
