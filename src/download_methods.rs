use vstd::prelude::*;

use crate::bash_operations::{available, extends_by, presence_command, since, BashOperations};
use crate::command::{CommandRunner, Executor};

verus! {

/// The download tools that can fetch an installer, most preferred first.
pub open spec fn download_preference() -> Seq<&'static str> {
    seq!["curl", "wget"]
}

/// The download tools found on this machine, in order of preference.
pub struct DownloadMethods {
    pub methods: Vec<&'static str>,
}

impl DownloadMethods {
    fn default() -> (r: DownloadMethods)
        ensures
            r.methods@ == download_preference(),
    {
        DownloadMethods { methods: vec!["curl", "wget"] }
    }

    /// Checks each tool of the preference list with `command -v` and keeps
    /// those found, in order of preference.
    pub fn new<E: Executor>(runner: &mut CommandRunner<E>) -> (r: DownloadMethods)
        ensures
            extends_by(final(runner).history(), old(runner).history(), 2),
            since(final(runner).history(), old(runner).history())[0].0 == presence_command("curl"@),
            since(final(runner).history(), old(runner).history())[1].0 == presence_command("wget"@),
            r.methods@ == available(
                download_preference(),
                since(final(runner).history(), old(runner).history()),
            ),
    {
        let preferred = DownloadMethods::default();
        let cli = BashOperations::new();
        let methods = cli.install_check(runner, &preferred.methods);
        DownloadMethods { methods }
    }

    /// The most preferred tool found, if any was.
    pub fn first(&self) -> (r: Option<&'static str>)
        ensures
            self.methods@.len() == 0 ==> r.is_none(),
            self.methods@.len() > 0 ==> r == Some(self.methods@[0]),
    {
        if self.methods.len() == 0 {
            None
        } else {
            Some(self.methods[0])
        }
    }
}

} // verus!
