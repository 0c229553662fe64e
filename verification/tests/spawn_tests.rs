use rns_dns::spawn::{
    parse_failure_message, plan_from_words, plan_spawn, spawn_failure_message, stderr_line,
    SpawnPlan,
};

fn run(executable: &str, args: &[&str]) -> SpawnPlan {
    SpawnPlan::Run {
        executable: executable.to_string(),
        args: args.iter().map(|a| a.to_string()).collect(),
    }
}

#[test]
fn plan_splits_the_command_line_into_words() {
    assert_eq!(plan_spawn("p", "ping 127.0.0.1"), run("ping", &["127.0.0.1"]));
    assert_eq!(
        plan_spawn("p", "cargo run -- -c --experimental2"),
        run("cargo", &["run", "--", "-c", "--experimental2"])
    );
    assert_eq!(plan_spawn("p", "ls"), run("ls", &[]));
}

#[test]
fn plan_honours_quoting() {
    assert_eq!(plan_spawn("p", "echo 'hello world' \"a b\""), run("echo", &["hello world", "a b"]));
    assert_eq!(plan_spawn("p", "echo a\\ b"), run("echo", &["a b"]));
    assert_eq!(plan_spawn("p", "'my prog' x"), run("my prog", &["x"]));
}

#[test]
fn plan_rejects_a_line_that_cannot_be_split() {
    assert_eq!(
        plan_spawn("srv", "echo 'open"),
        SpawnPlan::Reject { message: "Failed to parse command line for <srv>".to_string() }
    );
    assert_eq!(
        plan_spawn("srv", "echo \\"),
        SpawnPlan::Reject { message: "Failed to parse command line for <srv>".to_string() }
    );
}

#[test]
fn plan_rejects_a_line_without_words() {
    assert_eq!(
        plan_spawn("srv", ""),
        SpawnPlan::Reject { message: "Failed to spawn process <srv>".to_string() }
    );
    assert_eq!(
        plan_spawn("srv", "   "),
        SpawnPlan::Reject { message: "Failed to spawn process <srv>".to_string() }
    );
}

#[test]
fn plan_from_given_words() {
    assert_eq!(
        plan_from_words("n", None),
        SpawnPlan::Reject { message: "Failed to parse command line for <n>".to_string() }
    );
    assert_eq!(
        plan_from_words("n", Some(vec![])),
        SpawnPlan::Reject { message: "Failed to spawn process <n>".to_string() }
    );
    assert_eq!(
        plan_from_words("n", Some(vec!["a".to_string(), "b".to_string(), "c".to_string()])),
        run("a", &["b", "c"])
    );
    assert_eq!(plan_from_words("n", Some(vec!["a".to_string()])), run("a", &[]));
}

#[test]
fn messages() {
    assert_eq!(parse_failure_message("x y"), "Failed to parse command line for <x y>");
    assert_eq!(spawn_failure_message(""), "Failed to spawn process <>");
    assert_eq!(stderr_line("boom"), "[STDERR] boom");
    assert_eq!(stderr_line(""), "[STDERR] ");
}
