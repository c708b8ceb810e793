use vstd::prelude::*;
use crate::ntfail::{NtStatus, STATUS_SUCCESS, nt_success};

verus! {

/// The calls that load the driver, in the order they are made: create the device object,
/// open the filter engine, install the outbound IPv4 callout, install the outbound
/// transport callout.
#[derive(Clone, Copy, Debug, PartialEq, Eq, Structural)]
pub enum LoadStep {
    CreateDevice,
    OpenEngine,
    InstallIpv4Callout,
    InstallTransportCallout,
}

/// What loading does next: make a call, or finish with a status.
#[derive(Clone, Copy, Debug, PartialEq, Eq, Structural)]
pub enum LoadAction {
    Perform(LoadStep),
    Finish(NtStatus),
}

/// What follows once call `done` returned `status`. A failure to create the device or to
/// open the engine ends loading with that status; the callouts' statuses are not looked
/// at, and loading ends with success after the second callout.
pub open spec fn load_next(done: LoadStep, status: NtStatus) -> LoadAction {
    match done {
        LoadStep::CreateDevice => if status != STATUS_SUCCESS {
            LoadAction::Finish(status)
        } else {
            LoadAction::Perform(LoadStep::OpenEngine)
        },
        LoadStep::OpenEngine => if status != STATUS_SUCCESS {
            LoadAction::Finish(status)
        } else {
            LoadAction::Perform(LoadStep::InstallIpv4Callout)
        },
        LoadStep::InstallIpv4Callout => LoadAction::Perform(LoadStep::InstallTransportCallout),
        LoadStep::InstallTransportCallout => LoadAction::Finish(STATUS_SUCCESS),
    }
}

/// The action after feeding the statuses in `statuses` to loading, one for each call it
/// asks for, starting from `action`.
pub open spec fn drive_load(action: LoadAction, statuses: Seq<NtStatus>) -> LoadAction
    decreases statuses.len(),
{
    if statuses.len() == 0 {
        action
    } else {
        match action {
            LoadAction::Perform(step) => drive_load(load_next(step, statuses[0]), statuses.drop_first()),
            LoadAction::Finish(_) => action,
        }
    }
}

/// The first call of loading.
pub fn driver_entry_start() -> (action: LoadAction)
    ensures
        action == LoadAction::Perform(LoadStep::CreateDevice),
{
    LoadAction::Perform(LoadStep::CreateDevice)
}

/// Decides what follows once call `done` of loading the driver returned `status`.
pub fn driver_entry_next(done: LoadStep, status: NtStatus) -> (action: LoadAction)
    ensures
        action == load_next(done, status),
{
    match done {
        LoadStep::CreateDevice => {
            if !nt_success(status) {
                return LoadAction::Finish(status);
            }
            LoadAction::Perform(LoadStep::OpenEngine)
        },
        LoadStep::OpenEngine => {
            if !nt_success(status) {
                return LoadAction::Finish(status);
            }
            LoadAction::Perform(LoadStep::InstallIpv4Callout)
        },
        LoadStep::InstallIpv4Callout => LoadAction::Perform(LoadStep::InstallTransportCallout),
        LoadStep::InstallTransportCallout => LoadAction::Finish(STATUS_SUCCESS),
    }
}

/// Loading whose calls return `s0` to `s3` ends with the status of the device creation or
/// of the engine opening where that failed, and with success otherwise, whatever the
/// callout installations returned.
pub proof fn lemma_load_result(s0: NtStatus, s1: NtStatus, s2: NtStatus, s3: NtStatus)
    ensures
        drive_load(LoadAction::Perform(LoadStep::CreateDevice), seq![s0, s1, s2, s3]) == LoadAction::Finish(
            if s0 != STATUS_SUCCESS {
                s0
            } else if s1 != STATUS_SUCCESS {
                s1
            } else {
                STATUS_SUCCESS
            },
        ),
{
    let s = seq![s0, s1, s2, s3];
    assert(s.drop_first() =~= seq![s1, s2, s3]);
    assert(seq![s1, s2, s3].drop_first() =~= seq![s2, s3]);
    assert(seq![s2, s3].drop_first() =~= seq![s3]);
    assert(seq![s3].drop_first() =~= Seq::<NtStatus>::empty());
    reveal_with_fuel(drive_load, 5);
}

/// Loading makes its four calls in order: while creating the device and opening the engine
/// succeed (status 0), it goes on to install the IPv4 callout and then, whatever that
/// installation returned, the transport callout; only after that does it finish, with 0.
pub proof fn lemma_load_makes_every_call(s0: NtStatus, s1: NtStatus, s2: NtStatus, s3: NtStatus)
    ensures
        load_next(LoadStep::InstallIpv4Callout, s2) == LoadAction::Perform(LoadStep::InstallTransportCallout),
        load_next(LoadStep::InstallTransportCallout, s3) == LoadAction::Finish(0i32),
        s0 == 0i32 ==> drive_load(LoadAction::Perform(LoadStep::CreateDevice), seq![s0]) == LoadAction::Perform(
            LoadStep::OpenEngine,
        ),
        s0 == 0i32 && s1 == 0i32 ==> drive_load(LoadAction::Perform(LoadStep::CreateDevice), seq![s0, s1])
            == LoadAction::Perform(LoadStep::InstallIpv4Callout),
        s0 == 0i32 && s1 == 0i32 ==> drive_load(LoadAction::Perform(LoadStep::CreateDevice), seq![s0, s1, s2])
            == LoadAction::Perform(LoadStep::InstallTransportCallout),
        s0 != 0i32 ==> drive_load(LoadAction::Perform(LoadStep::CreateDevice), seq![s0]) == LoadAction::Finish(s0),
        s0 == 0i32 && s1 != 0i32 ==> drive_load(LoadAction::Perform(LoadStep::CreateDevice), seq![s0, s1])
            == LoadAction::Finish(s1),
{
    assert(seq![s0].drop_first() =~= Seq::<NtStatus>::empty());
    assert(seq![s0, s1].drop_first() =~= seq![s1]);
    assert(seq![s1].drop_first() =~= Seq::<NtStatus>::empty());
    assert(seq![s0, s1, s2].drop_first() =~= seq![s1, s2]);
    assert(seq![s1, s2].drop_first() =~= seq![s2]);
    assert(seq![s2].drop_first() =~= Seq::<NtStatus>::empty());
    reveal_with_fuel(drive_load, 4);
}

} // verus!
