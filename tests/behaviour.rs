use exercise_compiler::artifact::{exec_path_for, fresh_name, EXEC_DIR};
use exercise_compiler::dispatch::{
    begin, create_http_response, respond, run_code, unsupported, Body, CompileRequest, Language, Reply,
    STATUS_BAD_REQUEST, STATUS_OK,
};
use exercise_compiler::process::{classify, failure_message, spawn_failure, Stage};
use exercise_compiler::registry::lookup;
use exercise_compiler::strategy::{Action, Execution, LanguageExecution, Phase};

fn lang(tag: &str) -> Language {
    Language { language: tag.to_string() }
}

fn output_run(r: &Reply) -> String {
    match &r.body {
        Body::Json(c) => c.output_run.clone(),
        Body::Text(_) => panic!("expected a JSON body"),
    }
}

fn finish(a: Action) -> Result<String, String> {
    match a {
        Action::Finish { outcome } => outcome,
        _ => panic!("expected the execution to finish"),
    }
}

fn args_of(a: &Action) -> (String, Vec<String>) {
    match a {
        Action::Spawn { program, args } => (program.clone(), args.clone()),
        _ => panic!("expected a process to be started"),
    }
}

fn is_token(s: &str) -> bool {
    s.len() == 36
        && s.chars().enumerate().all(|(i, c)| {
            if i == 8 || i == 13 || i == 18 || i == 23 {
                c == '-'
            } else {
                c.is_ascii_digit() || ('a'..='f').contains(&c)
            }
        })
}

/// Drives a compiled execution through successful compile and run steps.
fn run_compiled(e: &mut Execution, stdout: &str) -> (Vec<Action>, Result<String, String>) {
    let mut seen = Vec::new();
    seen.push(e.advance(Ok("/tmp/a.go".to_string())));
    seen.push(e.advance(classify(Some(0), Vec::new(), Vec::new())));
    seen.push(e.advance(classify(Some(0), stdout.as_bytes().to_vec(), Vec::new())));
    let last = e.advance(Ok(String::new()));
    (seen, finish(last))
}

#[test]
fn unsupported_language_is_refused_without_artifacts() {
    let req = CompileRequest { code: "DISPLAY 'HI'.".to_string() };
    match run_code(&req, &lang("cobol")) {
        Err(r) => {
            assert_eq!(r.status, 400);
            match r.body {
                Body::Text(t) => assert_eq!(t, "language not supported"),
                Body::Json(_) => panic!("expected a text body"),
            }
        }
        Ok(_) => panic!("cobol is not registered"),
    }
    assert!(lookup("cobol").is_none());
}

#[test]
fn tags_match_case_sensitively() {
    assert!(lookup("Python").is_none());
    assert!(lookup("").is_none());
    assert!(lookup("java").is_none());
    assert!(begin(&lang("RUST"), "fn main() {}", "n").is_err());
}

#[test]
fn registry_entries() {
    let expect = [
        ("cpp", true, vec!["gcc"], "c"),
        ("python", false, vec!["python3"], "py"),
        ("javascript", false, vec!["node"], "js"),
        ("rust", true, vec!["rustc"], "rs"),
        ("go", false, vec!["go", "run"], "go"),
        ("haskell", true, vec!["ghc"], "hs"),
    ];
    for (tag, compiled, command, ext) in expect.iter() {
        let reg = lookup(tag).expect("registered");
        assert_eq!(reg.extension, *ext);
        let (is_compile, got) = match reg.execution {
            LanguageExecution::Compile { compile_command } => (true, compile_command),
            LanguageExecution::Interpret { command } => (false, command),
        };
        assert_eq!(is_compile, *compiled);
        assert_eq!(got, command.iter().map(|s| s.to_string()).collect::<Vec<String>>());
    }
}

#[test]
fn python_hello_world_succeeds() {
    let code = "print('Hello, world!')";
    let (mut e, _) = begin(&lang("python"), code, "a1").ok().expect("registered");
    let (program, args) = args_of(&e.advance(Ok("/tmp/a1.py".to_string())));
    assert_eq!(program, "python3");
    assert_eq!(args, vec!["/tmp/a1.py".to_string()]);
    let out = finish(e.advance(classify(Some(0), b"Hello, world!\n".to_vec(), Vec::new())));
    let r = respond(code, out);
    assert_eq!(r.status, STATUS_OK);
    assert!(output_run(&r).contains("Hello, world!\n"));
}

#[test]
fn invalid_c_reports_diagnostic_and_never_runs() {
    let code = "int main( {";
    let (mut e, _) = begin(&lang("cpp"), code, "c7").ok().expect("registered");
    let (program, args) = args_of(&e.advance(Ok("/tmp/c7.c".to_string())));
    assert_eq!(program, "gcc");
    assert_eq!(args, vec!["/tmp/c7.c", "-o", "src/tmp/c7"]);
    let diag = "c7.c:1:10: error: expected declaration specifiers before '{' token\n";
    let a = e.advance(classify(Some(1), Vec::new(), diag.as_bytes().to_vec()));
    match &a {
        Action::Remove { path } => assert_eq!(path, "src/tmp/c7"),
        _ => panic!("the executable must be removed, and not run"),
    }
    let r = respond(code, finish(e.advance(Ok(String::new()))));
    assert_eq!(r.status, STATUS_BAD_REQUEST);
    assert!(output_run(&r).contains(diag));
}

#[test]
fn go_prints_four() {
    let code = "package main\nimport \"fmt\"\nfunc main() { fmt.Println(2 + 2) }";
    let (mut e, _) = begin(&lang("go"), code, "g4").ok().expect("registered");
    let (program, args) = args_of(&e.advance(Ok("/tmp/g4.go".to_string())));
    assert_eq!(program, "go");
    assert_eq!(args, vec!["run", "/tmp/g4.go"]);
    let r = respond(code, finish(e.advance(classify(Some(0), b"4\n".to_vec(), Vec::new()))));
    assert_eq!(r.status, 200);
    assert!(output_run(&r).contains("4\n"));
}

#[test]
fn repeated_submission_gives_identical_output() {
    let code = "fn main() { println!(\"{}\", 2 + 2); }";
    let (mut e1, a1) = begin(&lang("rust"), code, "first").ok().expect("registered");
    let (mut e2, a2) = begin(&lang("rust"), code, "second").ok().expect("registered");
    match (&a1, &a2) {
        (Action::WriteSource { code: c1, extension: x1 }, Action::WriteSource { code: c2, extension: x2 }) => {
            assert_eq!(c1, c2);
            assert_eq!(x1, x2);
        }
        _ => panic!("both start by writing the source"),
    }
    assert_ne!(e1.exec_path, e2.exec_path);
    let (s1, o1) = run_compiled(&mut e1, "4\n");
    let (s2, o2) = run_compiled(&mut e2, "4\n");
    assert_eq!(o1, Ok("4\n".to_string()));
    assert_eq!(o1, o2);
    for (seen, path) in [(s1, "src/tmp/first"), (s2, "src/tmp/second")] {
        match &seen[2] {
            Action::Remove { path: p } => assert_eq!(p, path),
            _ => panic!("each run removes its own executable"),
        }
    }
}

#[test]
fn concurrent_requests_get_distinct_paths() {
    let req = CompileRequest { code: "main = putStrLn \"hi\"".to_string() };
    let (e1, _) = run_code(&req, &lang("haskell")).ok().expect("registered");
    let (e2, _) = run_code(&req, &lang("haskell")).ok().expect("registered");
    assert_ne!(e1.exec_path, e2.exec_path);
    assert!(e1.exec_path.starts_with(EXEC_DIR));
    assert!(is_token(&e1.exec_path[EXEC_DIR.len()..]));
    let (a, b) = (fresh_name(), fresh_name());
    assert!(is_token(&a) && is_token(&b));
    assert_ne!(a, b);
}

#[test]
fn exec_path_is_under_exec_dir() {
    assert_eq!(exec_path_for("abc"), "src/tmp/abc");
    assert_eq!(exec_path_for(""), "src/tmp/");
}

#[test]
fn classification_by_exit_code() {
    assert_eq!(classify(Some(0), b"out".to_vec(), b"warn".to_vec()), Ok("out".to_string()));
    assert_eq!(classify(Some(2), b"out".to_vec(), b"boom".to_vec()), Err("boom".to_string()));
    assert_eq!(classify(None, b"out".to_vec(), b"killed".to_vec()), Err("killed".to_string()));
    assert_eq!(classify(Some(-1), Vec::new(), Vec::new()), Err(String::new()));
    assert_eq!(classify(Some(0), Vec::new(), vec![0xff]), Ok(String::new()));
    assert_eq!(classify(Some(0), "héllo".as_bytes().to_vec(), Vec::new()), Ok("héllo".to_string()));
}

#[test]
fn undecodable_output_is_a_distinct_failure() {
    match classify(Some(0), vec![0x66, 0xff], Vec::new()) {
        Err(m) => assert!(m.starts_with("Error parsing stdout: ") && m.len() > "Error parsing stdout: ".len()),
        Ok(_) => panic!("invalid UTF-8 must not pass"),
    }
    match classify(Some(1), Vec::new(), vec![0xc3]) {
        Err(m) => assert!(m.starts_with("Error parsing stderr: ")),
        Ok(_) => panic!("a failing exit never succeeds"),
    }
}

#[test]
fn failure_messages() {
    assert_eq!(failure_message(Stage::CreateTempfile, "x"), "Error creating tempfile: x");
    assert_eq!(failure_message(Stage::WriteTempfile, "x"), "Error writing to tempfile: x");
    assert_eq!(failure_message(Stage::Spawn, "x"), "Error executing command: x");
    assert_eq!(failure_message(Stage::ParseStdout, "x"), "Error parsing stdout: x");
    assert_eq!(failure_message(Stage::ParseStderr, "x"), "Error parsing stderr: x");
    assert_eq!(
        spawn_failure("No such file or directory (os error 2)"),
        Err("Error executing command: No such file or directory (os error 2)".to_string())
    );
}

#[test]
fn spawn_failure_of_interpreter_is_reported() {
    let (mut e, _) = begin(&lang("javascript"), "1", "n").ok().expect("registered");
    e.advance(Ok("/tmp/n.js".to_string()));
    let r = respond("1", finish(e.advance(spawn_failure("not found"))));
    assert_eq!(r.status, 400);
    assert_eq!(output_run(&r), "Error executing command: not found");
}

#[test]
fn source_failure_still_removes_executable() {
    let (mut e, _) = begin(&lang("rust"), "fn main() {}", "r0").ok().expect("registered");
    let a = e.advance(Err(failure_message(Stage::CreateTempfile, "disk full")));
    match &a {
        Action::Remove { path } => assert_eq!(path, "src/tmp/r0"),
        _ => panic!("the reserved executable path is cleaned up"),
    }
    assert_eq!(finish(e.advance(Ok(String::new()))), Err("Error creating tempfile: disk full".to_string()));
    assert!(matches!(e.phase, Phase::Done { .. }));
    assert_eq!(finish(e.advance(Ok("late".to_string()))), Err("Error creating tempfile: disk full".to_string()));
}

#[test]
fn source_failure_of_interpreter_finishes_at_once() {
    let (mut e, _) = begin(&lang("python"), "x", "p0").ok().expect("registered");
    let out = finish(e.advance(Err(failure_message(Stage::WriteTempfile, "broken pipe"))));
    assert_eq!(out, Err("Error writing to tempfile: broken pipe".to_string()));
}

#[test]
fn run_failure_of_executable_is_cleaned_up_and_reported() {
    let (mut e, _) = begin(&lang("haskell"), "main = error \"x\"", "h1").ok().expect("registered");
    let (program, args) = args_of(&e.advance(Ok("/tmp/h1.hs".to_string())));
    assert_eq!((program.as_str(), args.len()), ("ghc", 3));
    let (program, args) = args_of(&e.advance(Ok(String::new())));
    assert_eq!(program, "src/tmp/h1");
    assert!(args.is_empty());
    let a = e.advance(classify(Some(1), Vec::new(), b"h1: x\n".to_vec()));
    assert!(matches!(a, Action::Remove { .. }));
    assert_eq!(finish(e.advance(Err("gone".to_string()))), Err("h1: x\n".to_string()));
}

#[test]
fn custom_strategy_keeps_flag_order() {
    let s = LanguageExecution::Compile { compile_command: vec!["g++".to_string(), "-O2".to_string(), "-Wall".to_string()] };
    let (mut e, a) = s.execute("int main(){}", "k", "cpp");
    assert!(matches!(a, Action::WriteSource { .. }));
    let (program, args) = args_of(&e.advance(Ok("/s.cpp".to_string())));
    assert_eq!(program, "g++");
    assert_eq!(args, vec!["-O2", "-Wall", "/s.cpp", "-o", "src/tmp/k"]);
}

#[test]
fn replies_echo_the_code() {
    let r = create_http_response(true, "x = 1", "done".to_string());
    assert_eq!(r.status, 200);
    match r.body {
        Body::Json(c) => {
            assert_eq!(c.output_code, "Received code: x = 1");
            assert_eq!(c.output_run, "done");
        }
        Body::Text(_) => panic!("expected a JSON body"),
    }
    let r = respond("", Err("bad".to_string()));
    assert_eq!(r.status, 400);
    assert_eq!(output_run(&r), "bad");
    let u = unsupported();
    assert_eq!(u.status, 400);
}
