use vstd::prelude::*;

use crate::bash_operations::{available, extends_by, presence_command, since, BashOperations};
use crate::command::{CommandRunner, Executor};

verus! {

/// The tools a migration cannot do without.
pub open spec fn required_tools() -> Seq<&'static str> {
    seq!["php", "ssh", "rsync", "bash"]
}

/// The tools a migration cannot do without: php, ssh, rsync and bash.
pub fn required_dependencies() -> (r: Vec<&'static str>)
    ensures
        r@ == required_tools(),
{
    vec!["php", "ssh", "rsync", "bash"]
}

/// Checks that every dependency resolves to an executable. Succeeds when all
/// do; otherwise returns how many are missing.
pub fn system_preflight_checks<E: Executor>(
    cli: &BashOperations,
    runner: &mut CommandRunner<E>,
    dependencies: &Vec<&'static str>,
) -> (r: Result<(), usize>)
    ensures
        extends_by(final(runner).history(), old(runner).history(), dependencies@.len() as int),
        forall|i: int|
            0 <= i < dependencies@.len() ==> (#[trigger] since(
                final(runner).history(),
                old(runner).history(),
            )[i]).0 == presence_command(dependencies@[i]@),
        ({
            let found = available(
                dependencies@,
                since(final(runner).history(), old(runner).history()),
            );
            &&& found.len() <= dependencies@.len()
            &&& found.len() == dependencies@.len() ==> r == Ok::<(), usize>(())
            &&& found.len() < dependencies@.len() ==> r == Err::<(), usize>(
                (dependencies@.len() - found.len()) as usize,
            )
        }),
{
    let verified = cli.install_check(runner, dependencies);
    proof {
        crate::bash_operations::lemma_available_len(
            dependencies@,
            since(runner.history(), old(runner).history()),
        );
    }
    if verified.len() < dependencies.len() {
        Err(dependencies.len() - verified.len())
    } else {
        Ok(())
    }
}

} // verus!
