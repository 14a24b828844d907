//! Committing output: where it goes, and in which order the file system is
//! touched so that the target never holds half of it.
//!
//! The bytes are first written to a temporary file beside the target, then
//! forced to disk, and only then renamed over the target. The temporary
//! file is created only where no file stands at its path, so a commit
//! never works on a file that is not its own, and of two commits to one
//! target the later gives way while the earlier is under way. A temporary
//! file that could not be removed stays, and has to be cleared away before
//! the next commit to that target.
//!
//! Whoever drives the file system asks `advance` what to do next and
//! reports how each step went; nothing here touches a file itself.

use crate::aead::MAX_PLAINTEXT_LEN;
use crate::error::Error;
use crate::format::MIN_CONTAINER_LEN;
use vstd::prelude::*;
use vstd::string::StringExecFns;

verus! {

/// Name of the file that a new encrypted container is written to.
pub const ENCRYPTED_NAME: &'static str = "encrypted.cocoon";

/// Name of the file that newly decrypted bytes are written to.
pub const DECRYPTED_NAME: &'static str = "decrypted.txt";

/// What is appended to a target path to name its temporary file.
pub const TEMP_SUFFIX: &'static str = ".tmp";

/// Bytes to commit, and the path to commit them to.
#[derive(Clone, Debug, PartialEq, Eq)]
pub struct Output {
    pub path: String,
    pub bytes: Vec<u8>,
}

/// The path that output is committed to: the one the caller names, or
/// else the default name.
pub open spec fn target_of(path: Option<Seq<char>>, default_name: Seq<char>) -> Seq<char> {
    match path {
        Some(name) => name,
        None => default_name,
    }
}

/// The path a caller names, if any, as a mathematical value.
pub open spec fn named(path: Option<&str>) -> Option<Seq<char>> {
    match path {
        Some(name) => Some(name@),
        None => None,
    }
}

/// The path of the temporary file for a target.
pub open spec fn temp_of(target: Seq<char>) -> Seq<char> {
    target + TEMP_SUFFIX@
}

/// Picks the path to commit to.
pub fn target_path(path: Option<&str>, default_name: &str) -> (target: String)
    ensures
        target@ == target_of(named(path), default_name@),
{
    match path {
        Some(name) => String::from_str(name),
        None => String::from_str(default_name),
    }
}

/// Names the temporary file for `target`.
pub fn temp_path(target: &str) -> (temp: String)
    ensures
        temp@ == temp_of(target@),
{
    String::from_str(target).concat(TEMP_SUFFIX)
}

/// The longest input that is read in whole: a container of the longest
/// plaintext that the cipher seals.
pub const MAX_INPUT_LEN: u64 = 274_877_906_861;

/// A file of `size` bytes can be read in whole: it fits in memory as one
/// piece, and it is no longer than the longest container. What is read
/// may be a plaintext to seal or a container to open; a plaintext has
/// its own, lower limit when it is sealed.
pub open spec fn fits(size: u64) -> bool {
    size <= MAX_PLAINTEXT_LEN + MIN_CONTAINER_LEN && size <= usize::MAX
}

/// Decides whether the file at `path`, of `size` bytes, is read in whole.
///
/// One that fits is let in with its length. A larger one is refused as
/// unreadable, by name, rather than read in part.
pub fn readable_len(path: &str, size: u64) -> (result: Result<usize, Error>)
    ensures
        fits(size) ==> result == Ok::<usize, Error>(size as usize),
        !fits(size) ==> (result matches Err(Error::IoReadFailure(refused)) && refused@ == path@),
{
    if size <= MAX_INPUT_LEN && size <= usize::MAX as u64 {
        Ok(size as usize)
    } else {
        Err(Error::IoReadFailure(String::from_str(path)))
    }
}

/// One step of committing output, or one of the two ways it ends.
#[derive(Clone, Copy, Debug, PartialEq, Eq, Structural)]
pub enum Step {
    /// Create the temporary file, empty, and only if no file stands at
    /// its path yet: a file that is already there is not this commit's
    /// and is left alone.
    CreateTemp,
    /// Write all bytes to the temporary file.
    WriteTemp,
    /// Force the temporary file to disk.
    SyncTemp,
    /// Rename the temporary file over the target.
    Rename,
    /// Remove the temporary file, which this commit created, after a
    /// failure.
    RemoveTemp,
    /// The target holds the new bytes, all of them.
    Committed,
    /// The target is as it was; nothing was committed.
    Failed,
}

impl Step {
    /// No further step follows.
    pub open spec fn is_final(self) -> bool {
        self == Step::Committed || self == Step::Failed
    }

    /// The step changes what the target path names. Every other step
    /// works on the temporary file alone.
    pub open spec fn replaces_target(self) -> bool {
        self == Step::Rename
    }
}

/// The step that follows `step`, given whether `step` succeeded.
pub open spec fn next_step(step: Step, succeeded: bool) -> Step {
    match step {
        Step::CreateTemp => if succeeded {
            Step::WriteTemp
        } else {
            Step::Failed
        },
        Step::WriteTemp => if succeeded {
            Step::SyncTemp
        } else {
            Step::RemoveTemp
        },
        Step::SyncTemp => if succeeded {
            Step::Rename
        } else {
            Step::RemoveTemp
        },
        Step::Rename => if succeeded {
            Step::Committed
        } else {
            Step::RemoveTemp
        },
        Step::RemoveTemp => Step::Failed,
        Step::Committed => Step::Committed,
        Step::Failed => Step::Failed,
    }
}

/// The step that a commit begins with.
pub fn first_step() -> (step: Step)
    ensures
        step == Step::CreateTemp,
{
    Step::CreateTemp
}

/// Decides what to do after `step` went as `succeeded` says.
///
/// A failure before the temporary file exists ends the commit at once; a
/// later one has the temporary file removed first. Either way the commit
/// ends as `Failed`, and it ends as `Committed` only through a rename that
/// succeeded.
pub fn advance(step: Step, succeeded: bool) -> (next: Step)
    ensures
        next == next_step(step, succeeded),
{
    match (step, succeeded) {
        (Step::CreateTemp, true) => Step::WriteTemp,
        (Step::WriteTemp, true) => Step::SyncTemp,
        (Step::SyncTemp, true) => Step::Rename,
        (Step::Rename, true) => Step::Committed,
        (Step::Committed, _) => Step::Committed,
        (Step::CreateTemp, false) => Step::Failed,
        (Step::RemoveTemp, _) => Step::Failed,
        (Step::Failed, _) => Step::Failed,
        (_, false) => Step::RemoveTemp,
    }
}

/// Says how a commit to `target` ended, once it has: with success, or
/// with a write failure that names the target. While steps remain there
/// is nothing to say.
pub fn conclude(step: Step, target: &str) -> (result: Option<Result<(), Error>>)
    ensures
        match step {
            Step::Committed => result == Some(Ok::<(), Error>(())),
            Step::Failed => result matches Some(Err(Error::IoWriteFailure(path))) && path@
                == target@,
            _ => result is None,
        },
{
    match step {
        Step::Committed => Some(Ok(())),
        Step::Failed => Some(Err(Error::IoWriteFailure(String::from_str(target)))),
        _ => None,
    }
}

/// The step that is due once the steps so far have gone as `outcomes`
/// says, one outcome for each step taken.
pub open spec fn step_after(outcomes: Seq<bool>) -> Step
    decreases outcomes.len(),
{
    if outcomes.len() == 0 {
        Step::CreateTemp
    } else {
        next_step(step_after(outcomes.drop_last()), outcomes.last())
    }
}

/// The first `count` steps all succeeded.
pub open spec fn all_succeeded(outcomes: Seq<bool>, count: int) -> bool {
    &&& count <= outcomes.len()
    &&& forall|i: int| 0 <= i < count ==> outcomes[i]
}

/// Which step is due, by how the steps before it went.
proof fn step_after_by_cases(outcomes: Seq<bool>)
    ensures
        step_after(outcomes) == Step::CreateTemp <==> outcomes.len() == 0,
        step_after(outcomes) == Step::WriteTemp <==> outcomes.len() == 1 && all_succeeded(
            outcomes,
            1,
        ),
        step_after(outcomes) == Step::SyncTemp <==> outcomes.len() == 2 && all_succeeded(
            outcomes,
            2,
        ),
        step_after(outcomes) == Step::Rename <==> outcomes.len() == 3 && all_succeeded(
            outcomes,
            3,
        ),
        step_after(outcomes) == Step::Committed <==> all_succeeded(outcomes, 4),
        step_after(outcomes) == Step::RemoveTemp <==> 2 <= outcomes.len() <= 4 && all_succeeded(
            outcomes,
            outcomes.len() - 1,
        ) && !outcomes.last(),
    decreases outcomes.len(),
{
    if outcomes.len() > 0 {
        let before = outcomes.drop_last();
        step_after_by_cases(before);
        assert(forall|i: int| 0 <= i < before.len() ==> before[i] == outcomes[i]);
    }
}

/// The rename is due exactly when three steps have been taken and all
/// three succeeded: the temporary file was created, written in full and
/// forced to disk.
pub proof fn rename_only_after_sync(outcomes: Seq<bool>)
    ensures
        step_after(outcomes).replaces_target() <==> outcomes.len() == 3 && all_succeeded(
            outcomes,
            3,
        ),
{
    step_after_by_cases(outcomes);
}

/// Of the steps taken in any run, only the fourth can be the one that
/// replaces the target, and only after three successes. So if a run is
/// cut short before its rename, every step it took worked on the temporary
/// file, and the target holds what it held before.
pub proof fn target_untouched_before_rename(outcomes: Seq<bool>, taken: int)
    requires
        0 <= taken <= outcomes.len(),
    ensures
        step_after(outcomes.take(taken)).replaces_target() ==> taken == 3 && all_succeeded(
            outcomes,
            3,
        ),
{
    let run = outcomes.take(taken);
    step_after_by_cases(run);
    assert(run.len() == taken);
    assert(forall|i: int| 0 <= i < taken ==> run[i] == outcomes[i]);
}

/// A commit ends as `Committed` exactly when its first four steps all
/// succeeded, the rename among them; any failure ends it as `Failed`.
pub proof fn committed_iff_all_succeeded(outcomes: Seq<bool>)
    ensures
        step_after(outcomes) == Step::Committed <==> all_succeeded(outcomes, 4),
        step_after(outcomes).is_final() && !all_succeeded(outcomes, 4) ==> step_after(outcomes)
            == Step::Failed,
{
    step_after_by_cases(outcomes);
}

/// Every commit is over after five steps at most.
pub proof fn ends_within_five_steps(outcomes: Seq<bool>)
    requires
        outcomes.len() >= 5,
    ensures
        step_after(outcomes).is_final(),
{
    step_after_by_cases(outcomes);
}

/// Once a commit has ended, further outcomes change nothing.
pub proof fn final_steps_stay(step: Step, succeeded: bool)
    requires
        step.is_final(),
    ensures
        next_step(step, succeeded) == step,
{
}

/// What the two files of a commit hold, each if it exists. No step names
/// any other path.
pub struct Files {
    pub target: Option<Seq<u8>>,
    pub temp: Option<Seq<u8>>,
}

/// What taking `step` may make of the files, for a commit of `bytes`.
///
/// The temporary file is created only where none stands at its path, and
/// a creation that fails changes nothing. A later step on the temporary
/// file leaves the target alone however it ends, and where it succeeds
/// the temporary file is as the step is meant to leave it: holding the
/// bytes, or gone. A rename is all or nothing: it moves the temporary
/// file's bytes to the target, or changes nothing.
pub open spec fn may_lead(
    step: Step,
    succeeded: bool,
    bytes: Seq<u8>,
    before: Files,
    after: Files,
) -> bool {
    match step {
        Step::CreateTemp => if succeeded {
            before.temp is None && after.target == before.target && after.temp == Some(
                Seq::<u8>::empty(),
            )
        } else {
            after == before
        },
        Step::WriteTemp => after.target == before.target && (succeeded ==> after.temp == Some(
            bytes,
        )),
        Step::SyncTemp => after.target == before.target && (succeeded ==> after.temp
            == before.temp),
        Step::RemoveTemp => after.target == before.target && (succeeded ==> after.temp is None),
        Step::Rename => if succeeded {
            after.target == before.temp && after.temp is None
        } else {
            after == before
        },
        Step::Committed | Step::Failed => after == before,
    }
}

/// `states` is what the files held before each step of a run and after
/// its last one, every step having done no more than it may.
pub open spec fn follows(outcomes: Seq<bool>, bytes: Seq<u8>, states: Seq<Files>) -> bool {
    &&& states.len() == outcomes.len() + 1
    &&& forall|i: int|
        0 <= i < outcomes.len() ==> may_lead(
            step_after(outcomes.take(i)),
            #[trigger] outcomes[i],
            bytes,
            states[i],
            states[i + 1],
        )
}

/// In the run so far, the temporary file was to be removed and could not
/// be.
pub open spec fn removal_failed(outcomes: Seq<bool>) -> bool
    decreases outcomes.len(),
{
    if outcomes.len() == 0 {
        false
    } else {
        removal_failed(outcomes.drop_last()) || (step_after(outcomes.drop_last())
            == Step::RemoveTemp && !outcomes.last())
    }
}

/// The step works on the temporary file after its creation.
pub open spec fn uses_temp(step: Step) -> bool {
    step == Step::WriteTemp || step == Step::SyncTemp || step == Step::Rename || step
        == Step::RemoveTemp
}

/// Where a run stands after `taken` steps, by the step that is due.
proof fn run_by_steps(outcomes: Seq<bool>, bytes: Seq<u8>, states: Seq<Files>, taken: int)
    requires
        follows(outcomes, bytes, states),
        0 <= taken <= outcomes.len(),
    ensures
        states[taken].target == if all_succeeded(outcomes.take(taken), 4) {
            Some(bytes)
        } else {
            states[0].target
        },
        step_after(outcomes.take(taken)) == Step::SyncTemp || step_after(outcomes.take(taken))
            == Step::Rename ==> states[taken].temp == Some(bytes),
        uses_temp(step_after(outcomes.take(taken))) || step_after(outcomes.take(taken))
            == Step::Committed ==> taken >= 1 && outcomes[0] && states[0].temp is None,
        step_after(outcomes.take(taken)) == Step::Committed ==> states[taken].temp is None,
        step_after(outcomes.take(taken)) == Step::Failed ==> states[taken].temp == states[0].temp
            || removal_failed(outcomes.take(taken)),
        taken >= 1 && !outcomes[0] ==> states[taken] == states[0],
        removal_failed(outcomes.take(taken)) ==> step_after(outcomes.take(taken)) == Step::Failed,
    decreases taken,
{
    let run = outcomes.take(taken);
    step_after_by_cases(run);
    assert(run.len() == taken);
    assert(forall|i: int| 0 <= i < taken ==> run[i] == outcomes[i]);
    if taken > 0 {
        let before = outcomes.take(taken - 1);
        run_by_steps(outcomes, bytes, states, taken - 1);
        step_after_by_cases(before);
        assert(before.len() == taken - 1);
        assert(forall|i: int| 0 <= i < taken - 1 ==> before[i] == outcomes[i]);
        assert(before =~= run.drop_last());
        assert(run.last() == outcomes[taken - 1]);
        assert(may_lead(
            step_after(before),
            outcomes[taken - 1],
            bytes,
            states[taken - 1],
            states[taken - 1 + 1],
        ));
    }
}

/// A commit replaces the target whole or not at all. At every point of a
/// run, the target holds what it held before the run, or, once the rename
/// has succeeded, all of the new bytes. A run cut short at any earlier
/// point leaves the target as it was.
pub proof fn target_whole_or_untouched(
    outcomes: Seq<bool>,
    bytes: Seq<u8>,
    states: Seq<Files>,
    taken: int,
)
    requires
        follows(outcomes, bytes, states),
        0 <= taken <= outcomes.len(),
    ensures
        all_succeeded(outcomes.take(taken), 4) ==> states[taken].target == Some(bytes),
        !all_succeeded(outcomes.take(taken), 4) ==> states[taken].target == states[0].target,
        all_succeeded(outcomes.take(taken), 4) <==> step_after(outcomes.take(taken))
            == Step::Committed,
{
    run_by_steps(outcomes, bytes, states, taken);
    step_after_by_cases(outcomes.take(taken));
}

/// A commit leaves no file behind and takes none away: once a run has
/// ended, the temporary path is as it was before the run, with nothing
/// there after a run that committed. The one exception is a run whose
/// temporary file was to be removed and could not be; that file stays.
pub proof fn temporary_path_as_before(
    outcomes: Seq<bool>,
    bytes: Seq<u8>,
    states: Seq<Files>,
    taken: int,
)
    requires
        follows(outcomes, bytes, states),
        0 <= taken <= outcomes.len(),
        step_after(outcomes.take(taken)).is_final(),
        !removal_failed(outcomes.take(taken)),
    ensures
        states[taken].temp == states[0].temp,
        step_after(outcomes.take(taken)) == Step::Committed ==> states[taken].temp is None,
{
    run_by_steps(outcomes, bytes, states, taken);
}

/// The temporary file is the run's own: a step that writes to it, forces
/// it to disk, renames it or removes it is due only after this run has
/// created it, at a path where nothing stood.
pub proof fn temporary_file_is_the_runs_own(
    outcomes: Seq<bool>,
    bytes: Seq<u8>,
    states: Seq<Files>,
    taken: int,
)
    requires
        follows(outcomes, bytes, states),
        0 <= taken <= outcomes.len(),
        uses_temp(step_after(outcomes.take(taken))),
    ensures
        taken >= 1,
        outcomes[0],
        states[0].temp is None,
{
    run_by_steps(outcomes, bytes, states, taken);
}

/// A commit that finds a file at its temporary path, be it a stranger's
/// or that of another commit to the same target still under way, fails at
/// once and changes nothing, neither that file nor the target.
pub proof fn foreign_temporary_file_is_left(
    outcomes: Seq<bool>,
    bytes: Seq<u8>,
    states: Seq<Files>,
    taken: int,
)
    requires
        follows(outcomes, bytes, states),
        0 <= taken <= outcomes.len(),
        states[0].temp is Some,
    ensures
        states[taken] == states[0],
        taken >= 1 ==> !outcomes[0] && step_after(outcomes.take(taken)) == Step::Failed,
{
    run_by_steps(outcomes, bytes, states, taken);
    step_after_by_cases(outcomes.take(taken));
    if taken >= 1 {
        assert(outcomes.take(0) =~= Seq::<bool>::empty());
        assert(may_lead(step_after(outcomes.take(0)), outcomes[0], bytes, states[0], states[1]));
        assert(outcomes.take(taken)[0] == outcomes[0]);
    }
}

/// The temporary file is never the target itself: its path is the
/// target's with the suffix behind it, so it lies in the same directory.
pub proof fn temp_is_beside_target(target: Seq<char>)
    ensures
        temp_of(target) != target,
        temp_of(target).len() == target.len() + 4,
        temp_of(target).subrange(0, target.len() as int) == target,
        forall|i: int| target.len() <= i < temp_of(target).len() ==> temp_of(target)[i] != '/',
{
    reveal_strlit(".tmp");
    assert(temp_of(target).subrange(0, target.len() as int) =~= target);
}

/// New encrypted and new decrypted files go by different names.
pub proof fn default_names_differ()
    ensures
        ENCRYPTED_NAME@ != DECRYPTED_NAME@,
{
    reveal_strlit("encrypted.cocoon");
    reveal_strlit("decrypted.txt");
    assert(ENCRYPTED_NAME@.len() == 16);
    assert(DECRYPTED_NAME@.len() == 13);
}

} // verus!
