//! What holds of bringing up guests.

use vstd::prelude::*;

use crate::error::VmError;
use crate::guest;
use crate::guest::{InitStage, InitState};
use crate::vm_config;
use crate::vmtypes::ConfigModel;

verus! {

/// Where a guest gets by the outcomes of its steps, and whether the host's filesystem is given up
/// on the way. `present` is whether the host has a filesystem.
pub open spec fn run(
    config: ConfigModel,
    present: bool,
    outcomes: Seq<Result<usize, VmError>>,
) -> (InitState, bool)
    decreases outcomes.len(),
{
    if outcomes.len() == 0 {
        (guest::initial_state(), false)
    } else {
        let (state, released) = run(config, present, outcomes.drop_last());
        (
            guest::state_after(
                state,
                guest::releases_filesystem(config, present),
                outcomes.last(),
            ),
            released || (state.stage == InitStage::RegisterHostFsRoute && present),
        )
    }
}

/// The number of steps of a guest.
pub open spec fn step_count(release: bool) -> nat {
    if release {
        7
    } else {
        6
    }
}

/// The steps of a guest by their position.
pub open spec fn stage_at(position: int, release: bool) -> InitStage {
    if position == 0 {
        InitStage::CreateVm
    } else if position == 1 {
        InitStage::PrepareMemoryLayout
    } else if position == 2 {
        InitStage::RegisterIrqRoutes
    } else if position == 3 {
        InitStage::LoadImages
    } else if position == 4 {
        InitStage::PrepareVm
    } else if position == 5 {
        InitStage::RegisterVm
    } else if position == 6 && release {
        InitStage::RegisterHostFsRoute
    } else {
        InitStage::Done
    }
}

/// Whether the outcome of the step at `position` ends the bringing up with an error.
pub open spec fn fails(position: int, release: bool, outcome: Result<usize, VmError>) -> bool {
    match outcome {
        Ok(_) => false,
        Err(error) => guest::failure_of(stage_at(position, release), error) is Some,
    }
}

/// Whether none of the first `count` outcomes ends the bringing up.
pub open spec fn none_fails(
    release: bool,
    outcomes: Seq<Result<usize, VmError>>,
    count: int,
) -> bool {
    forall|i: int| 0 <= i < count ==> !fails(i, release, #[trigger] outcomes[i])
}

/// Without a failure the steps are taken one after the other.
proof fn steps_follow_each_other(
    config: ConfigModel,
    present: bool,
    outcomes: Seq<Result<usize, VmError>>,
)
    requires
        none_fails(
            guest::releases_filesystem(config, present),
            outcomes,
            outcomes.len() as int,
        ),
    ensures
        run(config, present, outcomes).0.stage == stage_at(
            outcomes.len() as int,
            guest::releases_filesystem(config, present),
        ),
        outcomes.len() > 0 ==> outcomes[0] is Ok && run(config, present, outcomes).0.vm_id
            == outcomes[0]->Ok_0,
        run(config, present, outcomes).1 <==> guest::releases_filesystem(config, present)
            && outcomes.len() >= 7,
    decreases outcomes.len(),
{
    if outcomes.len() > 0 {
        let release = guest::releases_filesystem(config, present);
        let shorter = outcomes.drop_last();
        let last = outcomes.len() - 1;
        assert forall|i: int| 0 <= i < shorter.len() implies !fails(
            i,
            release,
            #[trigger] shorter[i],
        ) by {
            assert(shorter[i] == outcomes[i]);
        }
        steps_follow_each_other(config, present, shorter);
        assert(!fails(last, release, outcomes[last]));
        if last > 0 {
            assert(shorter[0] == outcomes[0]);
        }
    }
}

/// The first step that fails decides the error, whatever is reported behind it. Steps behind it are
/// not taken, and the host keeps its filesystem.
pub proof fn first_failure_decides(
    config: ConfigModel,
    present: bool,
    outcomes: Seq<Result<usize, VmError>>,
    position: int,
    error: VmError,
)
    requires
        0 <= position < outcomes.len(),
        none_fails(guest::releases_filesystem(config, present), outcomes, position),
        outcomes[position] == Err::<usize, VmError>(error),
        fails(position, guest::releases_filesystem(config, present), outcomes[position]),
    ensures
        run(config, present, outcomes).0.stage == (InitStage::Failed {
            error: guest::failure_of(
                stage_at(position, guest::releases_filesystem(config, present)),
                error,
            )->0,
        }),
        !run(config, present, outcomes).1,
    decreases outcomes.len(),
{
    let release = guest::releases_filesystem(config, present);
    let shorter = outcomes.drop_last();
    assert forall|i: int| 0 <= i < position implies !fails(i, release, #[trigger] shorter[i]) by {
        assert(shorter[i] == outcomes[i]);
    }
    if position == outcomes.len() - 1 {
        steps_follow_each_other(config, present, shorter);
    } else {
        assert(shorter[position] == outcomes[position]);
        first_failure_decides(config, present, shorter, position, error);
    }
}

/// Where some step fails, there is a first one.
proof fn first_failure(
    release: bool,
    outcomes: Seq<Result<usize, VmError>>,
    count: int,
) -> (position: int)
    requires
        0 <= count,
        !none_fails(release, outcomes, count),
    ensures
        0 <= position < count,
        none_fails(release, outcomes, position),
        fails(position, release, outcomes[position]),
    decreases count,
{
    if count == 0 {
        assert(none_fails(release, outcomes, count));
        0
    } else if none_fails(release, outcomes, count - 1) {
        count - 1
    } else {
        first_failure(release, outcomes, count - 1)
    }
}

/// A guest is up exactly if every step that can fail has succeeded, in order, and then it has the
/// number that the created VM was given.
pub proof fn up_iff_every_step_succeeded(
    config: ConfigModel,
    present: bool,
    outcomes: Seq<Result<usize, VmError>>,
)
    ensures
        run(config, present, outcomes).0.stage == InitStage::Done <==> {
            let release = guest::releases_filesystem(config, present);
            &&& outcomes.len() >= step_count(release)
            &&& none_fails(release, outcomes, step_count(release) as int)
        },
        run(config, present, outcomes).0.stage == InitStage::Done ==> outcomes[0] == Ok::<
            usize,
            VmError,
        >(run(config, present, outcomes).0.vm_id),
{
    let release = guest::releases_filesystem(config, present);
    let len = outcomes.len() as int;
    if none_fails(release, outcomes, len) {
        steps_follow_each_other(config, present, outcomes);
    } else {
        let position = first_failure(release, outcomes, len);
        first_failure_decides(config, present, outcomes, position, outcomes[position]->Err_0);
        assert(position < step_count(release));
        assert(!none_fails(release, outcomes, step_count(release) as int));
    }
}

/// The host gives up its filesystem for a guest exactly if it has one, the configuration asks for
/// it, and the guest is up.
pub proof fn filesystem_is_released_only_for_a_running_guest(
    config: ConfigModel,
    present: bool,
    outcomes: Seq<Result<usize, VmError>>,
)
    ensures
        run(config, present, outcomes).1 <==> {
            &&& present
            &&& vm_config::needs_filesystem_release(config)
            &&& run(config, present, outcomes).0.stage == InitStage::Done
        },
{
    let release = guest::releases_filesystem(config, present);
    let len = outcomes.len() as int;
    if none_fails(release, outcomes, len) {
        steps_follow_each_other(config, present, outcomes);
    } else {
        let position = first_failure(release, outcomes, len);
        first_failure_decides(config, present, outcomes, position, outcomes[position]->Err_0);
    }
}

/// On a host without a filesystem no guest comes to the step that registers the route of the device
/// that held it.
pub proof fn no_filesystem_route_without_a_filesystem(
    config: ConfigModel,
    outcomes: Seq<Result<usize, VmError>>,
)
    ensures
        run(config, false, outcomes).0.stage != InitStage::RegisterHostFsRoute,
    decreases outcomes.len(),
{
    if outcomes.len() > 0 {
        no_filesystem_route_without_a_filesystem(config, outcomes.drop_last());
    }
}

/// A VM that cannot be created or made ready has invalid data. The errors of laying out memory and of
/// loading images are passed on. A VM that cannot be registered exists already. Missing interrupt
/// routes are no failure, and neither is anything reported at the end.
pub proof fn failures_have_their_errors(error: VmError, end: VmError)
    ensures
        guest::failure_of(InitStage::CreateVm, error) == Some(VmError::InvalidData),
        guest::failure_of(InitStage::PrepareMemoryLayout, error) == Some(error),
        guest::failure_of(InitStage::RegisterIrqRoutes, error) is None,
        guest::failure_of(InitStage::LoadImages, error) == Some(error),
        guest::failure_of(InitStage::PrepareVm, error) == Some(VmError::InvalidData),
        guest::failure_of(InitStage::RegisterVm, error) == Some(VmError::AlreadyExists),
        guest::failure_of(InitStage::RegisterHostFsRoute, error) is None,
        guest::failure_of(InitStage::Done, error) is None,
        guest::failure_of(InitStage::Failed { error: end }, error) is None,
{
}

/// A guest starts with the creation of its VM.
pub proof fn guests_start_with_their_vm()
    ensures
        guest::initial_state().stage == InitStage::CreateVm,
{
}

/// A success leads to the next step, in the order of the steps, and only the creation of the VM sets
/// its number.
pub proof fn a_success_leads_to_the_next_step(
    position: int,
    vm_id: usize,
    release: bool,
    number: usize,
)
    requires
        0 <= position < step_count(release),
    ensures
        ({
            let before = InitState { stage: stage_at(position, release), vm_id };
            let after = guest::state_after(before, release, Ok(number));
            &&& after.stage == stage_at(position + 1, release)
            &&& after.vm_id == if position == 0 {
                number
            } else {
                vm_id
            }
        }),
{
}

/// A failure of a step ends the bringing up with an error, except that the registration of interrupt
/// routes leads to the next step whatever comes of it. The number of the VM stays.
pub proof fn a_failure_ends_or_is_ignored(
    position: int,
    vm_id: usize,
    release: bool,
    error: VmError,
)
    requires
        0 <= position < step_count(release),
    ensures
        ({
            let before = InitState { stage: stage_at(position, release), vm_id };
            let after = guest::state_after(before, release, Err(error));
            &&& after.vm_id == vm_id
            &&& position == 2 || position == 6 ==> after.stage == stage_at(position + 1, release)
            &&& position == 0 || position == 4 ==> after.stage == (InitStage::Failed {
                error: VmError::InvalidData,
            })
            &&& position == 1 || position == 3 ==> after.stage == (InitStage::Failed { error })
            &&& position == 5 ==> after.stage == (InitStage::Failed {
                error: VmError::AlreadyExists,
            })
        }),
{
}

/// Once a guest is up or has failed, nothing that is reported changes that.
pub proof fn the_end_is_the_end(
    vm_id: usize,
    release: bool,
    error: VmError,
    outcome: Result<usize, VmError>,
)
    ensures
        guest::state_after(InitState { stage: InitStage::Done, vm_id }, release, outcome)
            == (InitState { stage: InitStage::Done, vm_id }),
        guest::state_after(
            InitState { stage: InitStage::Failed { error }, vm_id },
            release,
            outcome,
        ) == (InitState { stage: InitStage::Failed { error }, vm_id }),
{
}

/// The registration of the route of the device that held the host's filesystem is the last step,
/// whatever comes of it.
pub proof fn the_filesystem_route_is_the_last_step(
    vm_id: usize,
    release: bool,
    outcome: Result<usize, VmError>,
)
    ensures
        guest::state_after(
            InitState { stage: InitStage::RegisterHostFsRoute, vm_id },
            release,
            outcome,
        ) == (InitState { stage: InitStage::Done, vm_id }),
{
}

} // verus!
