use vstd::prelude::*;

use crate::bash_operations::{
    extends, extends_by, file_test_command, lemma_since_chain, presence_command, says_true, since,
    BashOperations,
};
use crate::command::{is_failure, same_text, CommandResult, CommandRunner, Executor, Invocation};
use crate::download_methods::DownloadMethods;

verus! {

/// Why installing WP-CLI stopped.
#[derive(PartialEq, Eq, Structural, Clone, Copy, Debug)]
pub enum InstallError {
    /// Neither curl nor wget is available, so nothing was downloaded.
    NoDownloadMethod,
    /// A step of the installation failed, or `wp` was still missing afterwards.
    InstallFailed,
}

/// The download command for a tool, when the tool is one that can fetch the installer.
pub open spec fn download_command(tool: Seq<char>) -> Option<Seq<char>> {
    if tool == "curl"@ {
        Some("curl -O https://raw.githubusercontent.com/wp-cli/builds/gh-pages/phar/wp-cli.phar"@)
    } else if tool == "wget"@ {
        Some("wget https://raw.githubusercontent.com/wp-cli/builds/gh-pages/phar/wp-cli.phar"@)
    } else {
        None
    }
}

/// The three steps of an installation with a download command: fetch the
/// archive, make it executable, move it onto the search path.
pub open spec fn install_steps(download: Seq<char>) -> Seq<Seq<char>> {
    seq![download, "sudo chmod +x wp-cli.phar"@, "sudo mv wp-cli.phar /usr/local/bin/wp"@]
}

/// `runs` is what a clean-up ran: a test for the downloaded archive, and only
/// when the archive is there, the removal of the archive and of the installed command.
pub open spec fn cleanup_ran(runs: Seq<Invocation>) -> bool {
    &&& runs.len() >= 1
    &&& runs[0].0 == file_test_command("wp-cli.phar"@)
    &&& if says_true(runs[0].1) {
        &&& runs.len() == 3
        &&& runs[1].0 == "sudo rm wp-cli.phar"@
        &&& runs[2].0 == "sudo rm /usr/local/bin/wp"@
    } else {
        runs.len() == 1
    }
}

/// The download command of the chosen tool, if a tool was chosen and can fetch the installer.
pub open spec fn chosen_download(tool: Option<&'static str>) -> Option<Seq<char>> {
    match tool {
        Some(t) => download_command(t@),
        None => None,
    }
}

/// `runs` is what an installation ran, and `r` is what it returned. Without a
/// usable download tool nothing runs. Otherwise the three steps run in order
/// whatever each returns; when none failed, a presence check of `wp` follows.
/// The installation succeeds exactly when both went well; else a clean-up
/// runs last.
pub open spec fn install_ran(
    tool: Option<&'static str>,
    runs: Seq<Invocation>,
    r: Result<(), InstallError>,
) -> bool {
    match chosen_download(tool) {
        None => r == Err::<(), InstallError>(InstallError::NoDownloadMethod) && runs.len() == 0,
        Some(download) => {
            &&& runs.len() >= 3
            &&& forall|i: int| 0 <= i < 3 ==> (#[trigger] runs[i]).0 == install_steps(download)[i]
            &&& if forall|i: int| 0 <= i < 3 ==> !is_failure(#[trigger] runs[i].1) {
                &&& runs.len() >= 4
                &&& runs[3].0 == presence_command("wp"@)
                &&& if !is_failure(runs[3].1) {
                    r == Ok::<(), InstallError>(()) && runs.len() == 4
                } else {
                    &&& r == Err::<(), InstallError>(InstallError::InstallFailed)
                    &&& cleanup_ran(runs.subrange(4, runs.len() as int))
                }
            } else {
                &&& r == Err::<(), InstallError>(InstallError::InstallFailed)
                &&& cleanup_ran(runs.subrange(3, runs.len() as int))
            }
        },
    }
}

/// One read-only check made on a WordPress install before a migration.
#[derive(PartialEq, Eq, Structural, Clone, Copy, Debug)]
pub enum PreflightCheck {
    /// The source directory holds a WordPress install.
    SourceInstalled,
    /// The target directory holds a WordPress install.
    TargetInstalled,
    /// The source install reaches its database.
    SourceDatabase,
    /// The target install reaches its database.
    TargetDatabase,
    /// The uploads directory of the source is writable.
    SourceUploadsWritable,
    /// The uploads directory of the target is writable.
    TargetUploadsWritable,
}

/// Every preflight check, in the order they run.
pub open spec fn preflight_checks() -> Seq<PreflightCheck> {
    seq![
        PreflightCheck::SourceInstalled,
        PreflightCheck::TargetInstalled,
        PreflightCheck::SourceDatabase,
        PreflightCheck::TargetDatabase,
        PreflightCheck::SourceUploadsWritable,
        PreflightCheck::TargetUploadsWritable,
    ]
}

pub open spec fn writable_command(dir: Seq<char>) -> Seq<char> {
    "[ -w "@ + dir + "/wp-content/uploads ] && echo 'true' || echo 'false'"@
}

/// The command that a check runs, for the given source and target directories.
pub open spec fn preflight_command(check: PreflightCheck, source: Seq<char>, target: Seq<char>) -> Seq<
    char,
> {
    match check {
        PreflightCheck::SourceInstalled => "wp core is-installed --path="@ + source,
        PreflightCheck::TargetInstalled => "wp core is-installed --path="@ + target,
        PreflightCheck::SourceDatabase => "wp db check --path="@ + source,
        PreflightCheck::TargetDatabase => "wp db check --path="@ + target,
        PreflightCheck::SourceUploadsWritable => writable_command(source),
        PreflightCheck::TargetUploadsWritable => writable_command(target),
    }
}

/// A check passes when its command did not fail; a writability check, whose
/// command always exits successfully, passes when it printed `true`.
pub open spec fn check_passed(check: PreflightCheck, r: CommandResult) -> bool {
    match check {
        PreflightCheck::SourceUploadsWritable | PreflightCheck::TargetUploadsWritable => says_true(r),
        _ => !is_failure(r),
    }
}

/// The checks whose run did not pass, in order; `runs[i]` is the run of `checks[i]`.
pub open spec fn failed_checks(checks: Seq<PreflightCheck>, runs: Seq<Invocation>) -> Seq<
    PreflightCheck,
>
    decreases checks.len(),
{
    if checks.len() == 0 {
        Seq::empty()
    } else {
        let rest = failed_checks(checks.drop_last(), runs.subrange(0, checks.len() - 1));
        if check_passed(checks.last(), runs[checks.len() - 1].1) {
            rest
        } else {
            rest.push(checks.last())
        }
    }
}

/// Access to WP-CLI, the `wp` command, with the download tool chosen to install it.
pub struct WpCliInterface {
    pub download_method: Option<&'static str>,
}

impl WpCliInterface {
    fn default() -> (r: WpCliInterface)
        ensures
            r.download_method.is_none(),
    {
        WpCliInterface { download_method: None }
    }

    /// Chooses the download tool: the first of curl and wget that is found.
    pub fn new<E: Executor>(runner: &mut CommandRunner<E>) -> (r: WpCliInterface)
        ensures
            extends_by(final(runner).history(), old(runner).history(), 2),
            since(final(runner).history(), old(runner).history())[0].0 == presence_command("curl"@),
            since(final(runner).history(), old(runner).history())[1].0 == presence_command("wget"@),
            r.download_method == (if !is_failure(
                since(final(runner).history(), old(runner).history())[0].1,
            ) {
                Some("curl")
            } else if !is_failure(since(final(runner).history(), old(runner).history())[1].1) {
                Some("wget")
            } else {
                None::<&'static str>
            }),
    {
        let ghost start = runner.history();
        let methods = DownloadMethods::new(runner);
        proof {
            let runs = since(runner.history(), start);
            reveal_with_fuel(crate::bash_operations::available, 3);
            assert(crate::download_methods::download_preference().drop_last() =~= seq!["curl"]);
            assert(crate::download_methods::download_preference().drop_last().drop_last() =~= Seq::<
                &'static str,
            >::empty());
            assert(runs.subrange(0, 1).subrange(0, 0) =~= Seq::<Invocation>::empty());
        }
        match methods.first() {
            Some(tool) => WpCliInterface { download_method: Some(tool) },
            None => WpCliInterface::default(),
        }
    }

    /// Whether `wp` resolves to an executable.
    pub fn is_installed<E: Executor>(&self, runner: &mut CommandRunner<E>) -> (r: bool)
        ensures
            extends_by(final(runner).history(), old(runner).history(), 1),
            final(runner).history().last().0 == presence_command("wp"@),
            r == !is_failure(final(runner).history().last().1),
    {
        let cli = BashOperations::new();
        let mut command = String::from_str("command -v ");
        command.append("wp");
        cli.error_check(runner, &command)
    }

    /// Downloads WP-CLI with the chosen tool, makes it executable, moves it
    /// onto the search path, and checks that `wp` is then found. On failure
    /// it removes what was left behind.
    pub fn install<E: Executor>(&self, runner: &mut CommandRunner<E>) -> (r: Result<(), InstallError>)
        ensures
            extends(final(runner).history(), old(runner).history()),
            install_ran(
                self.download_method,
                since(final(runner).history(), old(runner).history()),
                r,
            ),
    {
        let download: &'static str = match self.download_method {
            None => {
                return Err(InstallError::NoDownloadMethod);
            },
            Some(tool) => {
                if same_text(tool, "curl") {
                    "curl -O https://raw.githubusercontent.com/wp-cli/builds/gh-pages/phar/wp-cli.phar"
                } else if same_text(tool, "wget") {
                    "wget https://raw.githubusercontent.com/wp-cli/builds/gh-pages/phar/wp-cli.phar"
                } else {
                    return Err(InstallError::NoDownloadMethod);
                }
            },
        };
        assert(chosen_download(self.download_method) == Some(download@));
        let mut cli = BashOperations::new();
        cli.add("download file", download);
        cli.add("make wp file executable", "sudo chmod +x wp-cli.phar");
        cli.add("move wp to /usr/local/bin/wp", "sudo mv wp-cli.phar /usr/local/bin/wp");
        let ghost start = runner.history();
        let queued = cli.run(runner);
        let ghost after_steps = runner.history();
        assert(since(after_steps, start).len() == 3);
        let installed = if queued {
            self.is_installed(runner)
        } else {
            false
        };
        let ghost after_check = runner.history();
        proof {
            lemma_since_chain(start, after_steps, after_check);
            assert(forall|i: int| 0 <= i < 3 ==> since(after_check, start)[i] == #[trigger] since(after_steps, start)[i]);
            if queued {
                assert(since(after_check, start)[3] == after_check.last());
            } else {
                assert(after_check == after_steps);
            }
        }
        if !installed {
            self.clean_up_download(runner);
            proof {
                let end = runner.history();
                lemma_since_chain(start, after_check, end);
                let runs = since(end, start);
                let k = since(after_check, start).len() as int;
                assert(runs.subrange(k, runs.len() as int) =~= since(end, after_check));
                assert(forall|i: int| 0 <= i < k ==> runs[i] == #[trigger] since(after_check, start)[i]);
            }
            return Err(InstallError::InstallFailed);
        }
        Ok(())
    }

    fn run_check<E: Executor>(
        &self,
        runner: &mut CommandRunner<E>,
        check: PreflightCheck,
        source_dir: &str,
        target_dir: &str,
    ) -> (passed: bool)
        ensures
            extends_by(final(runner).history(), old(runner).history(), 1),
            final(runner).history().last().0 == preflight_command(check, source_dir@, target_dir@),
            passed == check_passed(check, final(runner).history().last().1),
    {
        let cli = BashOperations::new();
        let mut command = String::new();
        match check {
            PreflightCheck::SourceInstalled => {
                command.append("wp core is-installed --path=");
                command.append(source_dir);
            },
            PreflightCheck::TargetInstalled => {
                command.append("wp core is-installed --path=");
                command.append(target_dir);
            },
            PreflightCheck::SourceDatabase => {
                command.append("wp db check --path=");
                command.append(source_dir);
            },
            PreflightCheck::TargetDatabase => {
                command.append("wp db check --path=");
                command.append(target_dir);
            },
            PreflightCheck::SourceUploadsWritable | PreflightCheck::TargetUploadsWritable => {
                command.append("[ -w ");
                if check == PreflightCheck::SourceUploadsWritable {
                    command.append(source_dir);
                } else {
                    command.append(target_dir);
                }
                command.append("/wp-content/uploads ] && echo 'true' || echo 'false'");
            },
        }
        assert(command@ =~= preflight_command(check, source_dir@, target_dir@));
        let output = runner.execute(command.as_str());
        match check {
            PreflightCheck::SourceUploadsWritable | PreflightCheck::TargetUploadsWritable => {
                cli.says_true(&output)
            },
            _ => !cli.has_error(&output),
        }
    }

    /// Runs every preflight check on both directories, going on after a
    /// failure so that all problems are found at once, and returns the checks
    /// that did not pass, in order.
    pub fn run_preflight_check<E: Executor>(
        &self,
        runner: &mut CommandRunner<E>,
        source_dir: &str,
        target_dir: &str,
    ) -> (failed: Vec<PreflightCheck>)
        ensures
            extends_by(final(runner).history(), old(runner).history(), 6),
            forall|i: int|
                0 <= i < 6 ==> (#[trigger] since(final(runner).history(), old(runner).history())[i]).0
                    == preflight_command(preflight_checks()[i], source_dir@, target_dir@),
            failed@ == failed_checks(
                preflight_checks(),
                since(final(runner).history(), old(runner).history()),
            ),
    {
        let checks = vec![
            PreflightCheck::SourceInstalled,
            PreflightCheck::TargetInstalled,
            PreflightCheck::SourceDatabase,
            PreflightCheck::TargetDatabase,
            PreflightCheck::SourceUploadsWritable,
            PreflightCheck::TargetUploadsWritable,
        ];
        assert(checks@ =~= preflight_checks());
        let ghost start = runner.history();
        let mut failed: Vec<PreflightCheck> = Vec::new();
        let mut i: usize = 0;
        while i < checks.len()
            invariant
                checks@ == preflight_checks(),
                i <= checks@.len(),
                extends_by(runner.history(), start, i as int),
                forall|j: int|
                    0 <= j < i ==> (#[trigger] since(runner.history(), start)[j]).0
                        == preflight_command(checks@[j], source_dir@, target_dir@),
                failed@ == failed_checks(checks@.subrange(0, i as int), since(runner.history(), start)),
            decreases checks@.len() - i,
        {
            let check = checks[i];
            let ghost before = runner.history();
            let passed = self.run_check(runner, check, source_dir, target_dir);
            let ghost now = since(runner.history(), start);
            assert forall|j: int| 0 <= j < i implies now[j] == since(before, start)[j] by {}
            assert(checks@.subrange(0, i + 1).drop_last() =~= checks@.subrange(0, i as int));
            assert(now.subrange(0, i as int) =~= since(before, start));
            if !passed {
                failed.push(check);
            }
            i = i + 1;
        }
        assert(checks@.subrange(0, 6) =~= checks@);
        failed
    }

    /// Removes a downloaded archive and the installed command, when the
    /// archive is still there.
    fn clean_up_download<E: Executor>(&self, runner: &mut CommandRunner<E>)
        ensures
            extends(final(runner).history(), old(runner).history()),
            cleanup_ran(since(final(runner).history(), old(runner).history())),
    {
        let ghost start = runner.history();
        let mut cli = BashOperations::new();
        if !cli.file_exists(runner, "wp-cli.phar") {
            return;
        }
        let ghost first = runner.history();
        cli.add("remove downloaded file, wp-cli.phar from current directory", "sudo rm wp-cli.phar");
        cli.add("remove executable, wp-cli.phar from /usr/local/bin", "sudo rm /usr/local/bin/wp");
        cli.run(runner);
        proof {
            lemma_since_chain(start, first, runner.history());
            assert(since(runner.history(), start)[0] == since(first, start)[0]);
        }
    }
}

} // verus!
