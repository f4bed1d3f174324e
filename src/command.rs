use vstd::prelude::*;

verus! {

/// What one shell invocation produced: whether the process reported success,
/// and the raw bytes it wrote to standard output and standard error.
pub struct CommandResult {
    pub exit_success: bool,
    pub stdout: Vec<u8>,
    pub stderr: Vec<u8>,
}

/// ASCII lowercasing of one byte; every other byte is left as it is.
pub open spec fn lower_byte(b: u8) -> u8 {
    if 65 <= b && b <= 90 {
        (b + 32) as u8
    } else {
        b
    }
}

pub open spec fn lower_bytes(s: Seq<u8>) -> Seq<u8> {
    Seq::new(s.len(), |i: int| lower_byte(s[i]))
}

/// `needle` occurs in `hay` starting at position `i`.
pub open spec fn occurs_at(hay: Seq<u8>, needle: Seq<u8>, i: int) -> bool {
    0 <= i && i + needle.len() <= hay.len() && hay.subrange(i, i + needle.len()) == needle
}

pub open spec fn contains_bytes(hay: Seq<u8>, needle: Seq<u8>) -> bool {
    exists|i: int| occurs_at(hay, needle, i)
}

/// The lowercase words whose presence in standard output marks a command as
/// failed, as ASCII bytes: "error", "failed", "not found", "no such file or
/// directory", "permission denied" and "command not found".
pub open spec fn failure_keywords() -> Seq<Seq<u8>> {
    seq![
        seq![101u8, 114, 114, 111, 114],
        seq![102u8, 97, 105, 108, 101, 100],
        seq![110u8, 111, 116, 32, 102, 111, 117, 110, 100],
        seq![
            110u8, 111, 32, 115, 117, 99, 104, 32, 102, 105, 108, 101, 32, 111, 114, 32, 100, 105, 114, 101, 99, 116, 111, 114, 121
        ],
        seq![
            112u8, 101, 114, 109, 105, 115, 115, 105, 111, 110, 32, 100, 101, 110, 105, 101, 100
        ],
        seq![
            99u8, 111, 109, 109, 97, 110, 100, 32, 110, 111, 116, 32, 102, 111, 117, 110, 100
        ],
    ]
}

/// The lowercased output mentions at least one failure keyword.
pub open spec fn mentions_failure(stdout: Seq<u8>) -> bool {
    exists|k: int|
        0 <= k < failure_keywords().len() && #[trigger] contains_bytes(
            lower_bytes(stdout),
            failure_keywords()[k],
        )
}

/// A command failed when its exit status says so, or when its standard output
/// mentions a failure keyword in any letter case. The keyword scan is a
/// heuristic: output that merely happens to hold one of the words counts as failed.
pub open spec fn is_failure(r: CommandResult) -> bool {
    !r.exit_success || mentions_failure(r.stdout@)
}

fn lower_byte_exec(b: u8) -> (r: u8)
    ensures
        r == lower_byte(b),
{
    if 65 <= b && b <= 90 {
        b + 32
    } else {
        b
    }
}

pub fn lowercase_bytes(s: &Vec<u8>) -> (r: Vec<u8>)
    ensures
        r@ == lower_bytes(s@),
{
    let mut r: Vec<u8> = Vec::with_capacity(s.len());
    let mut i: usize = 0;
    while i < s.len()
        invariant
            i <= s@.len(),
            r@ == lower_bytes(s@.subrange(0, i as int)),
        decreases s@.len() - i,
    {
        r.push(lower_byte_exec(s[i]));
        i = i + 1;
        assert(lower_bytes(s@.subrange(0, i as int)) =~= lower_bytes(s@.subrange(0, i - 1)).push(lower_byte(s@[i - 1])));
    }
    assert(s@.subrange(0, s@.len() as int) =~= s@);
    r
}

/// Whether `needle` occurs in `hay` at position `i`.
fn matches_at(hay: &Vec<u8>, needle: &Vec<u8>, i: usize) -> (r: bool)
    requires
        i + needle@.len() <= hay@.len(),
    ensures
        r == occurs_at(hay@, needle@, i as int),
{
    let hay_len = hay.len();
    let mut j: usize = 0;
    while j < needle.len()
        invariant
            i + needle@.len() <= hay@.len(),
            hay_len == hay@.len(),
            j <= needle@.len(),
            forall|t: int| 0 <= t < j ==> hay@[i + t] == needle@[t],
        decreases needle@.len() - j,
    {
        if hay[i + j] != needle[j] {
            assert(hay@.subrange(i as int, i + needle@.len())[j as int] != needle@[j as int]);
            return false;
        }
        j = j + 1;
    }
    assert(hay@.subrange(i as int, i + needle@.len()) =~= needle@);
    true
}

/// Substring search over bytes.
pub fn find_bytes(hay: &Vec<u8>, needle: &Vec<u8>) -> (r: bool)
    ensures
        r == contains_bytes(hay@, needle@),
{
    if needle.len() > hay.len() {
        return false;
    }
    let last: usize = hay.len() - needle.len();
    let mut i: usize = 0;
    loop
        invariant
            last + needle@.len() == hay@.len(),
            i <= last,
            forall|p: int| 0 <= p < i ==> !occurs_at(hay@, needle@, p),
        decreases last - i,
    {
        if matches_at(hay, needle, i) {
            return true;
        }
        if i == last {
            return false;
        }
        i = i + 1;
    }
}

/// The failure keyword with index `k`, as bytes.
fn failure_keyword(k: usize) -> (r: Vec<u8>)
    requires
        k < failure_keywords().len(),
    ensures
        r@ == failure_keywords()[k as int],
{
    let r = if k == 0 {
        vec![101u8, 114, 114, 111, 114]
    } else if k == 1 {
        vec![102u8, 97, 105, 108, 101, 100]
    } else if k == 2 {
        vec![110u8, 111, 116, 32, 102, 111, 117, 110, 100]
    } else if k == 3 {
        vec![
            110u8, 111, 32, 115, 117, 99, 104, 32, 102, 105, 108, 101, 32, 111, 114, 32, 100, 105, 114, 101, 99, 116, 111, 114, 121
        ]
    } else if k == 4 {
        vec![
            112u8, 101, 114, 109, 105, 115, 115, 105, 111, 110, 32, 100, 101, 110, 105, 101, 100
        ]
    } else {
        vec![
            99u8, 111, 109, 109, 97, 110, 100, 32, 110, 111, 116, 32, 102, 111, 117, 110, 100
        ]
    };
    assert(r@ =~= failure_keywords()[k as int]);
    r
}

/// Classifies a finished command: true when it failed (see `is_failure`).
pub fn classify(r: &CommandResult) -> (failed: bool)
    ensures
        failed == is_failure(*r),
{
    if !r.exit_success {
        return true;
    }
    let lowered = lowercase_bytes(&r.stdout);
    let mut k: usize = 0;
    while k < 6
        invariant
            lowered@ == lower_bytes(r.stdout@),
            k <= 6,
            forall|j: int| 0 <= j < k ==> !contains_bytes(lowered@, #[trigger] failure_keywords()[j]),
        decreases 6 - k,
    {
        let word = failure_keyword(k);
        if find_bytes(&lowered, &word) {
            assert(contains_bytes(lower_bytes(r.stdout@), failure_keywords()[k as int]));
            return true;
        }
        k = k + 1;
    }
    false
}

/// Whether two strings hold the same text.
pub fn same_text(a: &str, b: &str) -> (r: bool)
    ensures
        r == (a@ == b@),
{
    String::from_str(a) == String::from_str(b)
}

/// Runs a shell command string to completion. The library never spawns a
/// process itself: a program hands it an implementation that does, and tests
/// hand it one that answers from a table. An implementation must run the
/// command it is given, once per call; what comes back depends on the machine,
/// so nothing is promised of it.
pub trait Executor {
    fn execute(&mut self, command: &str) -> CommandResult;
}

/// One command handed to the executor, and what came back.
pub type Invocation = (Seq<char>, CommandResult);

/// Runs commands through an executor and keeps, as ghost state, the list of
/// every command run so far together with its result. Contracts of the
/// functions that run commands are stated over that list.
pub struct CommandRunner<E: Executor> {
    executor: E,
    history: Ghost<Seq<Invocation>>,
}

impl<E: Executor> CommandRunner<E> {
    /// Every command this runner has run, oldest first, with its result.
    pub closed spec fn history(&self) -> Seq<Invocation> {
        self.history@
    }

    pub fn new(executor: E) -> (r: Self)
        ensures
            r.history() == Seq::<Invocation>::empty(),
    {
        CommandRunner { executor, history: Ghost(Seq::empty()) }
    }

    /// Runs one command through the executor, waiting for it to finish, and
    /// logs it with its result.
    pub fn execute(&mut self, command: &str) -> (r: CommandResult)
        ensures
            final(self).history() == old(self).history().push((command@, r)),
    {
        let r = self.executor.execute(command);
        self.history = Ghost(self.history@.push((command@, r)));
        r
    }

    pub fn executor(&self) -> &E {
        &self.executor
    }
}

/// A command that exits successfully and whose output holds no failure
/// keyword is classified as not failed.
pub proof fn lemma_clean_success_not_failed(r: CommandResult)
    requires
        r.exit_success,
        forall|k: int|
            0 <= k < failure_keywords().len() ==> !contains_bytes(
                lower_bytes(r.stdout@),
                #[trigger] failure_keywords()[k],
            ),
    ensures
        !is_failure(r),
{
}

/// A command whose exit status reports failure is classified as failed,
/// whatever it printed.
pub proof fn lemma_exit_failure_failed(r: CommandResult)
    requires
        !r.exit_success,
    ensures
        is_failure(r),
{
}

/// A command whose output holds a failure keyword, in any mix of upper and
/// lower case, is classified as failed even when it exits successfully.
pub proof fn lemma_keyword_any_case_failed(r: CommandResult, k: int, i: int)
    requires
        0 <= k < failure_keywords().len(),
        0 <= i,
        i + failure_keywords()[k].len() <= r.stdout@.len(),
        lower_bytes(r.stdout@.subrange(i, i + failure_keywords()[k].len()))
            == failure_keywords()[k],
    ensures
        is_failure(r),
{
    let word = failure_keywords()[k];
    let low = lower_bytes(r.stdout@);
    assert(low.subrange(i, i + word.len()) =~= lower_bytes(
        r.stdout@.subrange(i, i + word.len()),
    ));
    assert(occurs_at(low, word, i));
    assert(contains_bytes(low, failure_keywords()[k]));
}

} // verus!
