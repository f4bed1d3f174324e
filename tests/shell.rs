use wp_migrate_sync::bash_operations::BashOperations;
use wp_migrate_sync::command::{classify, CommandResult, CommandRunner, Executor};
use wp_migrate_sync::download_methods::DownloadMethods;
use wp_migrate_sync::workflow::{required_dependencies, system_preflight_checks};
use wp_migrate_sync::wp_cli_interface::{InstallError, PreflightCheck, WpCliInterface};

/// A stand-in for a machine: the executables, files and writable directories
/// it has, and the commands that succeed on it. Records every command run.
struct FakeMachine {
    tools: Vec<String>,
    files: Vec<String>,
    writable: Vec<String>,
    succeeding: Vec<String>,
    ran: Vec<String>,
}

impl FakeMachine {
    fn new(tools: &[&str]) -> FakeMachine {
        FakeMachine {
            tools: tools.iter().map(|t| t.to_string()).collect(),
            files: Vec::new(),
            writable: Vec::new(),
            succeeding: Vec::new(),
            ran: Vec::new(),
        }
    }

    fn standard() -> FakeMachine {
        let mut m = FakeMachine::new(&["ls", "cd", "pwd", "php", "ssh", "rsync", "bash", "curl", "wget"]);
        m.files.push("src/main.rs".to_string());
        m
    }
}

fn done(ok: bool, stdout: &str, stderr: &str) -> CommandResult {
    CommandResult { exit_success: ok, stdout: stdout.as_bytes().to_vec(), stderr: stderr.as_bytes().to_vec() }
}

fn test_result(held: bool) -> CommandResult {
    done(true, if held { "true\n" } else { "false\n" }, "")
}

impl Executor for FakeMachine {
    fn execute(&mut self, command: &str) -> CommandResult {
        self.ran.push(command.to_string());
        if let Some(name) = command.strip_prefix("command -v ") {
            if self.tools.iter().any(|t| t == name) {
                return done(true, &format!("/usr/bin/{}\n", name), "");
            }
            return done(false, "", "");
        }
        if let Some(rest) = command.strip_prefix("[ -f ") {
            let file = rest.split(" ]").next().unwrap();
            return test_result(self.files.iter().any(|f| f == file));
        }
        if let Some(rest) = command.strip_prefix("[ -w ") {
            let dir = rest.split(" ]").next().unwrap();
            return test_result(self.writable.iter().any(|d| d == dir));
        }
        if self.succeeding.iter().any(|c| c == command) {
            return done(true, "", "");
        }
        done(false, "", &format!("bash: {}: command not found\n", command))
    }
}

fn runner() -> CommandRunner<FakeMachine> {
    CommandRunner::new(FakeMachine::standard())
}

#[test]
fn verify_cli_new() {
    let cli = BashOperations::new();
    assert_eq!(cli.operations.len(), 0);
}

#[test]
fn verify_cli_add() {
    let mut cli = BashOperations::new();
    cli.add("test command", "command -v ls");
    assert_eq!(cli.operations.len(), 1);
    cli.add("test command", "command -v cd");
    assert_eq!(cli.operations.len(), 2);
}

#[test]
fn verify_cli_file_exists() {
    let mut sh = runner();
    let cli = BashOperations::new();
    assert_eq!(cli.file_exists(&mut sh, "src/main.rs"), true);
    assert_eq!(cli.file_exists(&mut sh, "src/main.rss"), false);
    assert_eq!(sh.executor().ran[0], "[ -f src/main.rs ] && echo 'true' || echo 'false'");
}

#[test]
fn verify_cli_error_check() {
    let mut sh = runner();
    let cli = BashOperations::new();
    assert_eq!(cli.error_check(&mut sh, &String::from("command -v ls")), true);
    assert_eq!(cli.error_check(&mut sh, &String::from("command -v bad_operation")), false);
}

#[test]
fn verify_cli_has_error() {
    let mut sh = runner();
    let cli = BashOperations::new();
    let output = sh.execute("command -v ls");
    assert_eq!(cli.has_error(&output), false);
    let output = sh.execute("command -v bad_operation");
    assert_eq!(cli.has_error(&output), true);
}

#[test]
fn verify_cli_bash() {
    let mut sh = runner();
    let cli = BashOperations::new();
    let output = sh.execute("command -v cd");
    assert_eq!(cli.has_error(&output), false);
    let output = sh.execute("command -v bad_operation");
    assert_eq!(cli.has_error(&output), true);
}

#[test]
fn verify_cli_install_check() {
    let mut sh = runner();
    let cli = BashOperations::new();
    let dependencies = vec!["ls", "cd", "pwd"];
    let verified_dependencies = cli.install_check(&mut sh, &dependencies);
    assert_eq!(verified_dependencies.len(), dependencies.len());
    let dependencies = vec!["ls", "cd", "pwd", "bad_operation"];
    let verified_dependencies = cli.install_check(&mut sh, &dependencies);
    assert_eq!(verified_dependencies.len() == dependencies.len(), false);
}

#[test]
fn verify_cli_run() {
    let mut sh = runner();
    let mut cli = BashOperations::new();
    cli.add("test command", "command -v ls");
    let success = cli.run(&mut sh);
    assert_eq!(success, true);
    cli.add("test command", "command -v bad_operation");
    let success = cli.run(&mut sh);
    assert_eq!(success, false);
}

#[test]
fn clean_success_is_not_failed() {
    assert!(!classify(&done(true, "/usr/bin/ls\n", "")));
    assert!(!classify(&done(true, "", "error on stderr only\n")));
}

#[test]
fn exit_failure_is_failed_whatever_the_output() {
    assert!(classify(&done(false, "", "")));
    assert!(classify(&done(false, "all good\n", "")));
}

#[test]
fn keyword_in_any_case_is_failed() {
    assert!(classify(&done(true, "ERROR: database unreachable\n", "")));
    assert!(classify(&done(true, "Download Failed", "")));
    assert!(classify(&done(true, "x: Not Found", "")));
    assert!(classify(&done(true, "cat: a: No such file or directory", "")));
    assert!(classify(&done(true, "PERMISSION DENIED", "")));
    assert!(classify(&done(true, "wp: Command Not Found", "")));
    assert!(!classify(&done(true, "erro r fail ed", "")));
}

#[test]
fn keyword_heuristic_gives_false_positives() {
    assert!(classify(&done(true, "0 errors\n", "")));
}

#[test]
fn install_check_keeps_order_and_drops_missing() {
    let mut sh = runner();
    let cli = BashOperations::new();
    let names = vec!["pwd", "nope", "ls", "missing", "cd"];
    assert_eq!(cli.install_check(&mut sh, &names), vec!["pwd", "ls", "cd"]);
    assert_eq!(sh.executor().ran[1], "command -v nope");
}

#[test]
fn install_check_none_and_all() {
    let mut sh = runner();
    let cli = BashOperations::new();
    let none = vec!["nope", "missing"];
    assert!(cli.install_check(&mut sh, &none).is_empty());
    let all = vec!["ls", "cd", "pwd"];
    assert_eq!(cli.install_check(&mut sh, &all), all);
    let empty: Vec<&'static str> = Vec::new();
    assert!(cli.install_check(&mut sh, &empty).is_empty());
}

#[test]
fn run_goes_on_after_a_failure() {
    let mut sh = runner();
    let mut cli = BashOperations::new();
    cli.add("first", "command -v ls");
    cli.add("second", "command -v bad_operation");
    cli.add("third", "command -v pwd");
    assert_eq!(cli.run(&mut sh), false);
    assert_eq!(sh.executor().ran, vec!["command -v ls", "command -v bad_operation", "command -v pwd"]);
}

#[test]
fn run_report_gives_each_label_and_result() {
    let mut sh = runner();
    let mut cli = BashOperations::new();
    cli.add("first", "command -v ls");
    cli.add("second", "command -v bad_operation");
    let report = cli.run_report(&mut sh);
    assert_eq!(report.len(), 2);
    assert_eq!(report[0].0, "first");
    assert!(report[0].1.exit_success);
    assert_eq!(report[0].1.stdout, b"/usr/bin/ls\n".to_vec());
    assert_eq!(report[1].0, "second");
    assert!(!report[1].1.exit_success);
}

#[test]
fn run_of_an_empty_queue_succeeds() {
    let mut sh = runner();
    let cli = BashOperations::new();
    assert!(cli.run(&mut sh));
    assert!(sh.executor().ran.is_empty());
}

#[test]
fn error_excerpt_prefers_stderr() {
    let cli = BashOperations::new();
    assert_eq!(cli.error_excerpt(&done(false, "out\nmore", "first\nsecond")), Some(b"first".to_vec()));
    assert_eq!(cli.error_excerpt(&done(false, "only line", "")), Some(b"only line".to_vec()));
    assert_eq!(cli.error_excerpt(&done(false, "\nsecond", "")), Some(Vec::new()));
    assert_eq!(cli.error_excerpt(&done(false, "", "")), None);
}

#[test]
fn scenario_all_dependencies_present() {
    let mut sh = runner();
    let cli = BashOperations::new();
    let deps = vec!["ls", "cd", "pwd"];
    assert_eq!(cli.install_check(&mut sh, &deps), vec!["ls", "cd", "pwd"]);
    assert_eq!(system_preflight_checks(&cli, &mut sh, &deps), Ok(()));
}

#[test]
fn scenario_one_dependency_missing() {
    let mut sh = runner();
    let cli = BashOperations::new();
    let deps = vec!["ls", "bad_operation"];
    assert_eq!(cli.install_check(&mut sh, &deps), vec!["ls"]);
    assert_eq!(system_preflight_checks(&cli, &mut sh, &deps), Err(1));
}

#[test]
fn scenario_presence_classification() {
    let mut sh = runner();
    let cli = BashOperations::new();
    let output = sh.execute("command -v ls");
    assert!(!cli.has_error(&output));
    let output = sh.execute("command -v bad_operation");
    assert!(cli.has_error(&output));
}

#[test]
fn required_dependencies_are_checked() {
    let mut sh = CommandRunner::new(FakeMachine::new(&["php", "ssh", "bash"]));
    let cli = BashOperations::new();
    assert_eq!(required_dependencies(), vec!["php", "ssh", "rsync", "bash"]);
    assert_eq!(system_preflight_checks(&cli, &mut sh, &required_dependencies()), Err(1));
}

#[test]
fn download_methods_in_order_of_preference() {
    let mut sh = CommandRunner::new(FakeMachine::new(&["wget", "curl"]));
    let methods = DownloadMethods::new(&mut sh);
    assert_eq!(methods.methods, vec!["curl", "wget"]);
    assert_eq!(methods.first(), Some("curl"));
    let mut sh = CommandRunner::new(FakeMachine::new(&["wget"]));
    assert_eq!(DownloadMethods::new(&mut sh).first(), Some("wget"));
    let mut sh = CommandRunner::new(FakeMachine::new(&[]));
    assert_eq!(DownloadMethods::new(&mut sh).first(), None);
}

#[test]
fn scenario_no_download_tool_stops_before_any_download() {
    let mut sh = CommandRunner::new(FakeMachine::new(&["php", "ssh", "rsync", "bash"]));
    let wp = WpCliInterface::new(&mut sh);
    assert_eq!(wp.download_method, None);
    assert_eq!(wp.is_installed(&mut sh), false);
    let ran_before = sh.executor().ran.len();
    assert_eq!(wp.install(&mut sh), Err(InstallError::NoDownloadMethod));
    assert_eq!(sh.executor().ran.len(), ran_before);
}

const CURL_DOWNLOAD: &str = "curl -O https://raw.githubusercontent.com/wp-cli/builds/gh-pages/phar/wp-cli.phar";

#[test]
fn install_runs_the_steps_then_checks() {
    let mut machine = FakeMachine::new(&["curl", "wp"]);
    machine.succeeding = vec![
        CURL_DOWNLOAD.to_string(),
        "sudo chmod +x wp-cli.phar".to_string(),
        "sudo mv wp-cli.phar /usr/local/bin/wp".to_string(),
    ];
    let mut sh = CommandRunner::new(machine);
    let wp = WpCliInterface::new(&mut sh);
    assert_eq!(wp.download_method, Some("curl"));
    assert_eq!(wp.install(&mut sh), Ok(()));
    assert_eq!(
        sh.executor().ran[2..].to_vec(),
        vec![CURL_DOWNLOAD, "sudo chmod +x wp-cli.phar", "sudo mv wp-cli.phar /usr/local/bin/wp", "command -v wp"]
    );
}

#[test]
fn failed_install_cleans_up() {
    let mut machine = FakeMachine::new(&["wget"]);
    machine.files.push("wp-cli.phar".to_string());
    let mut sh = CommandRunner::new(machine);
    let wp = WpCliInterface::new(&mut sh);
    assert_eq!(wp.download_method, Some("wget"));
    assert_eq!(wp.install(&mut sh), Err(InstallError::InstallFailed));
    assert_eq!(
        sh.executor().ran[2..].to_vec(),
        vec![
            "wget https://raw.githubusercontent.com/wp-cli/builds/gh-pages/phar/wp-cli.phar",
            "sudo chmod +x wp-cli.phar",
            "sudo mv wp-cli.phar /usr/local/bin/wp",
            "[ -f wp-cli.phar ] && echo 'true' || echo 'false'",
            "sudo rm wp-cli.phar",
            "sudo rm /usr/local/bin/wp",
        ]
    );
}

#[test]
fn install_with_an_unknown_tool_downloads_nothing() {
    let mut sh = runner();
    let wp = WpCliInterface { download_method: Some("fetch") };
    assert_eq!(wp.install(&mut sh), Err(InstallError::NoDownloadMethod));
    assert!(sh.executor().ran.is_empty());
}

#[test]
fn preflight_reports_every_failed_check() {
    let mut machine = FakeMachine::standard();
    machine.succeeding = vec!["wp core is-installed --path=/src".to_string(), "wp db check --path=/src".to_string()];
    machine.writable = vec!["/dst/wp-content/uploads".to_string()];
    let mut sh = CommandRunner::new(machine);
    let wp = WpCliInterface { download_method: Some("curl") };
    let failed = wp.run_preflight_check(&mut sh, "/src", "/dst");
    assert_eq!(
        failed,
        vec![PreflightCheck::TargetInstalled, PreflightCheck::TargetDatabase, PreflightCheck::SourceUploadsWritable]
    );
    assert_eq!(sh.executor().ran.len(), 6);
    assert_eq!(sh.executor().ran[4], "[ -w /src/wp-content/uploads ] && echo 'true' || echo 'false'");
}

#[test]
fn preflight_passes_on_two_good_installs() {
    let mut machine = FakeMachine::standard();
    for dir in ["/a", "/b"] {
        machine.succeeding.push(format!("wp core is-installed --path={}", dir));
        machine.succeeding.push(format!("wp db check --path={}", dir));
        machine.writable.push(format!("{}/wp-content/uploads", dir));
    }
    let mut sh = CommandRunner::new(machine);
    let wp = WpCliInterface { download_method: None };
    assert!(wp.run_preflight_check(&mut sh, "/a", "/b").is_empty());
}
