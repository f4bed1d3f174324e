use vstd::prelude::*;

use crate::command::{
    classify, contains_bytes, find_bytes, is_failure, lower_bytes, lowercase_bytes,
    CommandResult, CommandRunner, Executor, Invocation,
};

verus! {

/// `now` is `before` with exactly `n` more invocations at its end.
pub open spec fn extends_by(now: Seq<Invocation>, before: Seq<Invocation>, n: int) -> bool {
    &&& now.len() == before.len() + n
    &&& forall|i: int| 0 <= i < before.len() ==> now[i] == before[i]
}

/// `now` is `before` with zero or more invocations added at its end.
pub open spec fn extends(now: Seq<Invocation>, before: Seq<Invocation>) -> bool {
    &&& before.len() <= now.len()
    &&& forall|i: int| 0 <= i < before.len() ==> now[i] == before[i]
}

/// The invocations of `now` that came after `before`.
pub open spec fn since(now: Seq<Invocation>, before: Seq<Invocation>) -> Seq<Invocation> {
    now.subrange(before.len() as int, now.len() as int)
}

/// The command that tests whether `name` resolves to an executable.
pub open spec fn presence_command(name: Seq<char>) -> Seq<char> {
    "command -v "@ + name
}

/// The command that prints `true` when `file` is a regular file and `false` otherwise.
pub open spec fn file_test_command(file: Seq<char>) -> Seq<char> {
    "[ -f "@ + file + " ] && echo 'true' || echo 'false'"@
}

/// The word "true", as ASCII bytes.
pub open spec fn true_word() -> Seq<u8> {
    seq![116u8, 114, 117, 101]
}

/// The output of a command says `true`, in any letter case.
pub open spec fn says_true(r: CommandResult) -> bool {
    contains_bytes(lower_bytes(r.stdout@), true_word())
}

/// The names whose presence check did not fail, in their original order;
/// `runs[i]` is the presence check of `names[i]`.
pub open spec fn available(names: Seq<&'static str>, runs: Seq<Invocation>) -> Seq<&'static str>
    decreases names.len(),
{
    if names.len() == 0 {
        Seq::empty()
    } else {
        let rest = available(names.drop_last(), runs.subrange(0, names.len() - 1));
        if is_failure(runs[names.len() - 1].1) {
            rest
        } else {
            rest.push(names.last())
        }
    }
}

/// `idx` picks, in increasing order, positions of `b` that hold the elements of `a`.
pub open spec fn picks<T>(a: Seq<T>, b: Seq<T>, idx: Seq<int>) -> bool {
    &&& idx.len() == a.len()
    &&& forall|i: int| 0 <= i < idx.len() ==> 0 <= #[trigger] idx[i] < b.len() && a[i] == b[idx[i]]
    &&& forall|i: int, j: int| 0 <= i < j < idx.len() ==> idx[i] < idx[j]
}

/// `a` can be had from `b` by leaving out some of its elements, keeping the order.
pub open spec fn is_subsequence<T>(a: Seq<T>, b: Seq<T>) -> bool {
    exists|idx: Seq<int>| picks(a, b, idx)
}

/// `r` is the first line of `s`: everything before the first newline byte,
/// or all of `s` when it holds none.
pub open spec fn is_first_line(s: Seq<u8>, r: Seq<u8>) -> bool {
    &&& r.len() <= s.len()
    &&& r == s.subrange(0, r.len() as int)
    &&& forall|i: int| 0 <= i < r.len() ==> r[i] != 10
    &&& (r.len() == s.len() || s[r.len() as int] == 10)
}

/// An ordered queue of shell operations, each a label that tells the user
/// what is happening and the command that does it.
pub struct BashOperations {
    pub operations: Vec<(&'static str, &'static str)>,
}

fn first_line(s: &Vec<u8>) -> (r: Vec<u8>)
    ensures
        is_first_line(s@, r@),
{
    let mut r: Vec<u8> = Vec::new();
    let mut i: usize = 0;
    while i < s.len() && s[i] != 10
        invariant
            i <= s@.len(),
            r@ == s@.subrange(0, i as int),
            forall|j: int| 0 <= j < i ==> s@[j] != 10,
        decreases s@.len() - i,
    {
        r.push(s[i]);
        i = i + 1;
        assert(r@ =~= s@.subrange(0, i as int));
    }
    r
}

impl BashOperations {
    pub fn new() -> (r: BashOperations)
        ensures
            r.operations@ == Seq::<(&'static str, &'static str)>::empty(),
    {
        BashOperations { operations: Vec::new() }
    }

    /// Appends an operation at the end of the queue.
    pub fn add(&mut self, message: &'static str, operation: &'static str)
        ensures
            final(self).operations@ == old(self).operations@.push((message, operation)),
    {
        self.operations.push((message, operation));
    }

    /// Runs every queued command in order, without stopping at a failure, and
    /// returns each label with what its command produced.
    pub fn run_report<E: Executor>(&self, runner: &mut CommandRunner<E>) -> (report: Vec<
        (&'static str, CommandResult),
    >)
        ensures
            extends_by(final(runner).history(), old(runner).history(), self.operations@.len() as int),
            report@.len() == self.operations@.len(),
            forall|i: int|
                0 <= i < self.operations@.len() ==> {
                    &&& (#[trigger] since(final(runner).history(), old(runner).history())[i]).0
                        == self.operations@[i].1@
                    &&& report@[i].0 == self.operations@[i].0
                    &&& report@[i].1 == since(final(runner).history(), old(runner).history())[i].1
                },
    {
        let ghost start = runner.history();
        let mut report: Vec<(&'static str, CommandResult)> = Vec::new();
        let mut i: usize = 0;
        while i < self.operations.len()
            invariant
                i <= self.operations@.len(),
                extends_by(runner.history(), start, i as int),
                report@.len() == i,
                forall|j: int|
                    0 <= j < i ==> {
                        &&& (#[trigger] since(runner.history(), start)[j]).0
                            == self.operations@[j].1@
                        &&& report@[j].0 == self.operations@[j].0
                        &&& report@[j].1 == since(runner.history(), start)[j].1
                    },
            decreases self.operations@.len() - i,
        {
            let label = self.operations[i].0;
            let command = self.operations[i].1;
            let ghost before = runner.history();
            let output = runner.execute(command);
            assert(since(runner.history(), start)[i as int] == (command@, output));
            report.push((label, output));
            assert forall|j: int| 0 <= j < i + 1 implies {
                &&& (#[trigger] since(runner.history(), start)[j]).0 == self.operations@[j].1@
                &&& report@[j].0 == self.operations@[j].0
                &&& report@[j].1 == since(runner.history(), start)[j].1
            } by {
                if j < i {
                    assert(since(runner.history(), start)[j] == since(before, start)[j]);
                }
            }
            i = i + 1;
        }
        report
    }

    /// Runs every queued command in order, going on after a failure, and
    /// returns true only when none of them failed.
    pub fn run<E: Executor>(&self, runner: &mut CommandRunner<E>) -> (success: bool)
        ensures
            extends_by(final(runner).history(), old(runner).history(), self.operations@.len() as int),
            forall|i: int|
                0 <= i < self.operations@.len() ==> (#[trigger] since(
                    final(runner).history(),
                    old(runner).history(),
                )[i]).0 == self.operations@[i].1@,
            success == forall|i: int|
                0 <= i < self.operations@.len() ==> !is_failure(
                    #[trigger] since(final(runner).history(), old(runner).history())[i].1,
                ),
    {
        let ghost start = runner.history();
        let report = self.run_report(runner);
        let ghost done = since(runner.history(), start);
        let mut success = true;
        let mut i: usize = 0;
        while i < report.len()
            invariant
                i <= report@.len(),
                report@.len() == self.operations@.len(),
                done.len() == report@.len(),
                forall|j: int| 0 <= j < report@.len() ==> report@[j].1 == (#[trigger] done[j]).1,
                success == forall|j: int| 0 <= j < i ==> !is_failure(#[trigger] done[j].1),
            decreases report@.len() - i,
        {
            let failed = self.has_error(&report[i].1);
            assert(failed == is_failure(done[i as int].1));
            if failed {
                success = false;
            }
            i = i + 1;
            assert(success == forall|j: int| 0 <= j < i ==> !is_failure(#[trigger] done[j].1)) by {
                if !success {
                    if !failed {
                        let w = choose|j: int| 0 <= j < i - 1 && is_failure(#[trigger] done[j].1);
                        assert(0 <= w < i && is_failure(done[w].1));
                    }
                }
            }
        }
        success
    }

    /// Whether a finished command counts as failed: a non-zero exit status,
    /// or a failure keyword in its standard output (see `is_failure`).
    pub fn has_error(&self, output: &CommandResult) -> (r: bool)
        ensures
            r == is_failure(*output),
    {
        classify(output)
    }

    /// The first line of what a failed command printed: of its standard error
    /// when it wrote any, else of its standard output; `None` when it printed nothing.
    pub fn error_excerpt(&self, output: &CommandResult) -> (r: Option<Vec<u8>>)
        ensures
            output.stderr@.len() > 0 ==> r.is_some() && is_first_line(output.stderr@, r.unwrap()@),
            output.stderr@.len() == 0 && output.stdout@.len() > 0 ==> r.is_some()
                && is_first_line(output.stdout@, r.unwrap()@),
            output.stderr@.len() == 0 && output.stdout@.len() == 0 ==> r.is_none(),
    {
        if output.stderr.len() > 0 {
            Some(first_line(&output.stderr))
        } else if output.stdout.len() > 0 {
            Some(first_line(&output.stdout))
        } else {
            None
        }
    }

    /// Whether the standard output of a command says `true`, in any letter case.
    pub fn says_true(&self, output: &CommandResult) -> (r: bool)
        ensures
            r == says_true(*output),
    {
        let lowered = lowercase_bytes(&output.stdout);
        let word: Vec<u8> = vec![116u8, 114, 117, 101];
        assert(word@ =~= true_word());
        find_bytes(&lowered, &word)
    }

    /// Whether `file` is a regular file, asked of the shell.
    pub fn file_exists<E: Executor>(&self, runner: &mut CommandRunner<E>, file: &str) -> (r: bool)
        ensures
            extends_by(final(runner).history(), old(runner).history(), 1),
            final(runner).history().last().0 == file_test_command(file@),
            r == says_true(final(runner).history().last().1),
    {
        let mut command = String::from_str("[ -f ");
        command.append(file);
        command.append(" ] && echo 'true' || echo 'false'");
        let output = runner.execute(command.as_str());
        self.says_true(&output)
    }

    /// Runs `command` and returns true when it did not fail.
    pub fn error_check<E: Executor>(&self, runner: &mut CommandRunner<E>, command: &String) -> (r:
        bool)
        ensures
            extends_by(final(runner).history(), old(runner).history(), 1),
            final(runner).history().last().0 == command@,
            r == !is_failure(final(runner).history().last().1),
    {
        let output = runner.execute(command.as_str());
        !self.has_error(&output)
    }

    /// Checks each name, in order, with `command -v <name>` and returns those
    /// whose check did not fail, in their original order.
    pub fn install_check<E: Executor>(
        &self,
        runner: &mut CommandRunner<E>,
        to_iter: &Vec<&'static str>,
    ) -> (r: Vec<&'static str>)
        ensures
            extends_by(final(runner).history(), old(runner).history(), to_iter@.len() as int),
            forall|i: int|
                0 <= i < to_iter@.len() ==> (#[trigger] since(
                    final(runner).history(),
                    old(runner).history(),
                )[i]).0 == presence_command(to_iter@[i]@),
            r@ == available(to_iter@, since(final(runner).history(), old(runner).history())),
    {
        let ghost start = runner.history();
        let mut collected: Vec<&'static str> = Vec::new();
        let mut i: usize = 0;
        while i < to_iter.len()
            invariant
                i <= to_iter@.len(),
                extends_by(runner.history(), start, i as int),
                forall|j: int|
                    0 <= j < i ==> (#[trigger] since(runner.history(), start)[j]).0
                        == presence_command(to_iter@[j]@),
                collected@ == available(to_iter@.subrange(0, i as int), since(runner.history(), start)),
            decreases to_iter@.len() - i,
        {
            let dependency = to_iter[i];
            let mut command = String::from_str("command -v ");
            command.append(dependency);
            let ghost before = runner.history();
            let found = self.error_check(runner, &command);
            let ghost now = since(runner.history(), start);
            assert forall|j: int| 0 <= j < i implies now[j] == since(before, start)[j] by {}
            assert(to_iter@.subrange(0, i + 1).drop_last() =~= to_iter@.subrange(0, i as int));
            assert(now.subrange(0, i as int) =~= since(before, start));
            if found {
                collected.push(dependency);
            }
            i = i + 1;
        }
        assert(to_iter@.subrange(0, to_iter@.len() as int) =~= to_iter@);
        collected
    }
}

/// Histories that grow one after the other: what came after the first is
/// what came after it up to the second, then what came after the second.
pub proof fn lemma_since_chain(a: Seq<Invocation>, b: Seq<Invocation>, c: Seq<Invocation>)
    requires
        extends(b, a),
        extends(c, b),
    ensures
        extends(c, a),
        since(c, a) == since(b, a) + since(c, b),
{
    assert(since(c, a) =~= since(b, a) + since(c, b));
}

proof fn available_positions(names: Seq<&'static str>, runs: Seq<Invocation>) -> (idx: Seq<int>)
    requires
        runs.len() == names.len(),
    ensures
        picks(available(names, runs), names, idx),
        forall|i: int| 0 <= i < idx.len() ==> #[trigger] idx[i] < names.len(),
    decreases names.len(),
{
    if names.len() == 0 {
        Seq::empty()
    } else {
        let n = names.len() - 1;
        let prev = available_positions(names.drop_last(), runs.subrange(0, n));
        if is_failure(runs[n].1) {
            prev
        } else {
            let idx = prev.push(n);
            assert forall|i: int, j: int| 0 <= i < j < idx.len() implies idx[i] < idx[j] by {
                if j < prev.len() {
                    assert(prev[i] < prev[j]);
                } else {
                    assert(prev[i] < n);
                }
            }
            idx
        }
    }
}

/// The dependency check keeps the names it found in their original order: its
/// result is a subsequence of its input.
pub proof fn lemma_available_keeps_order(names: Seq<&'static str>, runs: Seq<Invocation>)
    requires
        runs.len() == names.len(),
    ensures
        is_subsequence(available(names, runs), names),
{
    let idx = available_positions(names, runs);
}

/// The dependency check never returns more names than it was given.
pub proof fn lemma_available_len(names: Seq<&'static str>, runs: Seq<Invocation>)
    ensures
        available(names, runs).len() <= names.len(),
    decreases names.len(),
{
    if names.len() > 0 {
        lemma_available_len(names.drop_last(), runs.subrange(0, names.len() - 1));
    }
}

/// When every presence check fails, no name is available.
pub proof fn lemma_available_none(names: Seq<&'static str>, runs: Seq<Invocation>)
    requires
        runs.len() == names.len(),
        forall|i: int| 0 <= i < runs.len() ==> is_failure(#[trigger] runs[i].1),
    ensures
        available(names, runs) == Seq::<&'static str>::empty(),
    decreases names.len(),
{
    if names.len() > 0 {
        let n = names.len() - 1;
        lemma_available_none(names.drop_last(), runs.subrange(0, n));
        assert(is_failure(runs[n].1));
    }
}

/// When every presence check succeeds, every name is available, in order.
pub proof fn lemma_available_all(names: Seq<&'static str>, runs: Seq<Invocation>)
    requires
        runs.len() == names.len(),
        forall|i: int| 0 <= i < runs.len() ==> !is_failure(#[trigger] runs[i].1),
    ensures
        available(names, runs) == names,
    decreases names.len(),
{
    if names.len() > 0 {
        let n = names.len() - 1;
        lemma_available_all(names.drop_last(), runs.subrange(0, n));
        assert(!is_failure(runs[n].1));
        assert(names.drop_last().push(names.last()) =~= names);
    }
}

} // verus!
