use vstd::prelude::*;
use crate::ntfail::{NtStatus, STATUS_SUCCESS, nt_success};

verus! {

/// The calls that install a callout, in the order they are made: register the classify
/// function with the filter engine, add the callout, add its sublayer, add the filter that
/// routes the layer's traffic to it.
#[derive(Clone, Copy, Debug, PartialEq, Eq, Structural)]
pub enum InstallStep {
    RegisterCallout,
    AddCallout,
    AddSublayer,
    AddFilter,
}

/// What the installation does next: make a call, or finish with a status.
#[derive(Clone, Copy, Debug, PartialEq, Eq, Structural)]
pub enum InstallAction {
    Perform(InstallStep),
    Finish(NtStatus),
}

/// The step after `done`, if any.
pub open spec fn step_after(done: InstallStep) -> Option<InstallStep> {
    match done {
        InstallStep::RegisterCallout => Some(InstallStep::AddCallout),
        InstallStep::AddCallout => Some(InstallStep::AddSublayer),
        InstallStep::AddSublayer => Some(InstallStep::AddFilter),
        InstallStep::AddFilter => None,
    }
}

/// What follows once call `done` returned `status`: a failure ends the installation with
/// that status; a success goes on to the next call, or ends with it after the last.
pub open spec fn install_next(done: InstallStep, status: NtStatus) -> InstallAction {
    if status != STATUS_SUCCESS {
        InstallAction::Finish(status)
    } else {
        match step_after(done) {
            Some(step) => InstallAction::Perform(step),
            None => InstallAction::Finish(status),
        }
    }
}

/// The action after feeding the statuses in `statuses` to the installation, one for each
/// call it asks for, starting from `action`.
pub open spec fn drive_install(action: InstallAction, statuses: Seq<NtStatus>) -> InstallAction
    decreases statuses.len(),
{
    if statuses.len() == 0 {
        action
    } else {
        match action {
            InstallAction::Perform(step) => drive_install(install_next(step, statuses[0]), statuses.drop_first()),
            InstallAction::Finish(_) => action,
        }
    }
}

/// The status an installation ends with when its calls return `s0` to `s3`: the first
/// failure, else success.
pub open spec fn install_result(s0: NtStatus, s1: NtStatus, s2: NtStatus, s3: NtStatus) -> NtStatus {
    if s0 != STATUS_SUCCESS {
        s0
    } else if s1 != STATUS_SUCCESS {
        s1
    } else if s2 != STATUS_SUCCESS {
        s2
    } else {
        s3
    }
}

/// The first call of an installation.
pub fn install_callout_start() -> (action: InstallAction)
    ensures
        action == InstallAction::Perform(InstallStep::RegisterCallout),
{
    InstallAction::Perform(InstallStep::RegisterCallout)
}

/// Decides what follows once call `done` of a callout installation returned `status`.
pub fn install_callout_next(done: InstallStep, status: NtStatus) -> (action: InstallAction)
    ensures
        action == install_next(done, status),
{
    if !nt_success(status) {
        return InstallAction::Finish(status);
    }
    match done {
        InstallStep::RegisterCallout => InstallAction::Perform(InstallStep::AddCallout),
        InstallStep::AddCallout => InstallAction::Perform(InstallStep::AddSublayer),
        InstallStep::AddSublayer => InstallAction::Perform(InstallStep::AddFilter),
        InstallStep::AddFilter => InstallAction::Finish(status),
    }
}

/// An installation whose four calls return `s0` to `s3` makes the calls in order up to the
/// first that fails, and ends with the first failing status, or with success when none
/// fails.
pub proof fn lemma_install_ends_with_first_failure(s0: NtStatus, s1: NtStatus, s2: NtStatus, s3: NtStatus)
    ensures
        drive_install(InstallAction::Perform(InstallStep::RegisterCallout), seq![s0, s1, s2, s3])
            == InstallAction::Finish(install_result(s0, s1, s2, s3)),
        s0 != STATUS_SUCCESS ==> drive_install(InstallAction::Perform(InstallStep::RegisterCallout), seq![s0])
            == InstallAction::Finish(s0),
{
    let s = seq![s0, s1, s2, s3];
    assert(s.drop_first() =~= seq![s1, s2, s3]);
    assert(seq![s1, s2, s3].drop_first() =~= seq![s2, s3]);
    assert(seq![s2, s3].drop_first() =~= seq![s3]);
    assert(seq![s3].drop_first() =~= Seq::<NtStatus>::empty());
    assert(seq![s0].drop_first() =~= Seq::<NtStatus>::empty());
    reveal_with_fuel(drive_install, 5);
}

/// An installation makes its four calls in order, each one only after every earlier one
/// returned 0: register the callout, add it, add its sublayer, add its filter. Any other
/// status ends it at once with that status, and it finishes with 0 after the filter.
pub proof fn lemma_install_makes_every_call(s: NtStatus)
    ensures
        install_next(InstallStep::RegisterCallout, 0i32) == InstallAction::Perform(InstallStep::AddCallout),
        install_next(InstallStep::AddCallout, 0i32) == InstallAction::Perform(InstallStep::AddSublayer),
        install_next(InstallStep::AddSublayer, 0i32) == InstallAction::Perform(InstallStep::AddFilter),
        install_next(InstallStep::AddFilter, 0i32) == InstallAction::Finish(0i32),
        s != 0i32 ==> install_next(InstallStep::RegisterCallout, s) == InstallAction::Finish(s),
        s != 0i32 ==> install_next(InstallStep::AddCallout, s) == InstallAction::Finish(s),
        s != 0i32 ==> install_next(InstallStep::AddSublayer, s) == InstallAction::Finish(s),
        s != 0i32 ==> install_next(InstallStep::AddFilter, s) == InstallAction::Finish(s),
{
}

} // verus!
