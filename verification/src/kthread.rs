use vstd::prelude::*;
use crate::ntfail::{NtStatus, STATUS_SUCCESS, nt_success};

verus! {

/// A system thread, held by a reference on its thread object; `kthread` is the object's
/// address, 0 when no object is referenced.
pub struct KThread {
    pub kthread: usize,
}

impl KThread {
    /// Whether letting the handle go must wait for the thread to end and then drop the
    /// reference on its object: so exactly when it holds one.
    pub fn must_release(&self) -> (release: bool)
        ensures
            release == (self.kthread != 0),
    {
        self.kthread != 0
    }
}

/// How far the start of a thread has come.
#[derive(Clone, Copy, Debug, PartialEq, Eq, Structural)]
pub enum SpawnStage {
    /// The thread is being created.
    Start,
    /// The thread exists; its object is being referenced.
    Created,
    /// The reference was asked for; the thread handle is being closed.
    Referenced,
    /// All went well; the thread's priority is being lowered.
    Closed,
    /// The start is over.
    Finished,
}

/// The state of starting a thread: whether it runs at low priority, how far it has come,
/// the thread object that was referenced (0 for none) and the status of that reference.
#[derive(Clone, Copy, Debug, PartialEq, Eq, Structural)]
pub struct SpawnState {
    pub low_priority: bool,
    pub stage: SpawnStage,
    pub object: usize,
    pub obref_status: NtStatus,
}

/// What a kernel call made while starting a thread returned.
#[derive(Clone, Copy, Debug, PartialEq, Eq, Structural)]
pub enum SpawnEvent {
    /// The status of creating the system thread.
    Created(NtStatus),
    /// The status of referencing the thread object by its handle, and the object's address
    /// (0 for none).
    Referenced(NtStatus, usize),
    /// The status of closing the thread handle.
    Closed(NtStatus),
    /// The thread's base priority was lowered by one.
    PriorityLowered,
}

/// What starting a thread does next.
#[derive(Clone, Copy, Debug, PartialEq, Eq, Structural)]
pub enum SpawnAction {
    /// Reference the thread object through the thread handle.
    ReferenceObject,
    /// Close the thread handle.
    CloseHandle,
    /// Lower the base priority of the thread with this object by one.
    LowerPriority(usize),
    /// The start failed: let this handle go (see `KThread::must_release`) and report no
    /// thread.
    Fail(usize),
    /// The start succeeded: hand out a thread held by a reference on this object.
    Succeed(usize),
}

/// Whether `event` answers the call that a start at `stage` is waiting on.
pub open spec fn spawn_expects(stage: SpawnStage, event: SpawnEvent) -> bool {
    match (stage, event) {
        (SpawnStage::Start, SpawnEvent::Created(_)) => true,
        (SpawnStage::Created, SpawnEvent::Referenced(_, _)) => true,
        (SpawnStage::Referenced, SpawnEvent::Closed(_)) => true,
        (SpawnStage::Closed, SpawnEvent::PriorityLowered) => true,
        _ => false,
    }
}

/// The state and action after `event`. A failed creation ends with no thread. After the
/// reference, the handle is closed whatever the reference returned; then a failed close
/// or a failed reference ends with the referenced object let go, and otherwise the thread
/// is handed out, after its priority is lowered when it runs at low priority.
pub open spec fn spawn_next(s: SpawnState, event: SpawnEvent) -> (SpawnState, SpawnAction) {
    match event {
        SpawnEvent::Created(status) => if status != STATUS_SUCCESS {
            (SpawnState { stage: SpawnStage::Finished, ..s }, SpawnAction::Fail(s.object))
        } else {
            (SpawnState { stage: SpawnStage::Created, ..s }, SpawnAction::ReferenceObject)
        },
        SpawnEvent::Referenced(status, object) => (
            SpawnState { stage: SpawnStage::Referenced, object, obref_status: status, ..s },
            SpawnAction::CloseHandle,
        ),
        SpawnEvent::Closed(status) => if status != STATUS_SUCCESS || s.obref_status != STATUS_SUCCESS {
            (SpawnState { stage: SpawnStage::Finished, ..s }, SpawnAction::Fail(s.object))
        } else if s.low_priority {
            (SpawnState { stage: SpawnStage::Closed, ..s }, SpawnAction::LowerPriority(s.object))
        } else {
            (SpawnState { stage: SpawnStage::Finished, ..s }, SpawnAction::Succeed(s.object))
        },
        SpawnEvent::PriorityLowered => (
            SpawnState { stage: SpawnStage::Finished, ..s },
            SpawnAction::Succeed(s.object),
        ),
    }
}

/// The state of a start that has yet to create the thread; it begins with that call.
pub fn spawn_start(low_priority: bool) -> (s: SpawnState)
    ensures
        s == (SpawnState { low_priority, stage: SpawnStage::Start, object: 0, obref_status: STATUS_SUCCESS }),
{
    SpawnState { low_priority, stage: SpawnStage::Start, object: 0, obref_status: STATUS_SUCCESS }
}

/// Takes in what the last call of a thread start returned and decides what follows.
pub fn spawn_step(s: &mut SpawnState, event: SpawnEvent) -> (action: SpawnAction)
    requires
        spawn_expects(old(s).stage, event),
    ensures
        (*final(s), action) == spawn_next(*old(s), event),
{
    match event {
        SpawnEvent::Created(status) => {
            if !nt_success(status) {
                s.stage = SpawnStage::Finished;
                return SpawnAction::Fail(s.object);
            }
            s.stage = SpawnStage::Created;
            SpawnAction::ReferenceObject
        },
        SpawnEvent::Referenced(status, object) => {
            s.stage = SpawnStage::Referenced;
            s.object = object;
            s.obref_status = status;
            SpawnAction::CloseHandle
        },
        SpawnEvent::Closed(status) => {
            if !nt_success(status) {
                s.stage = SpawnStage::Finished;
                return SpawnAction::Fail(s.object);
            }
            if !nt_success(s.obref_status) {
                s.stage = SpawnStage::Finished;
                return SpawnAction::Fail(s.object);
            }
            if s.low_priority {
                s.stage = SpawnStage::Closed;
                SpawnAction::LowerPriority(s.object)
            } else {
                s.stage = SpawnStage::Finished;
                SpawnAction::Succeed(s.object)
            }
        },
        SpawnEvent::PriorityLowered => {
            s.stage = SpawnStage::Finished;
            SpawnAction::Succeed(s.object)
        },
    }
}

/// A start whose creation, reference and close return `created`, `obref` and `closed`
/// hands out the referenced object exactly when all three succeed, lowering its priority
/// first exactly when it runs at low priority. A failed creation lets nothing go; a later
/// failure lets go the object that was referenced.
pub proof fn lemma_spawn_outcome(low_priority: bool, created: NtStatus, obref: NtStatus, object: usize, closed: NtStatus)
    ensures
        ({
            let s0 = SpawnState { low_priority, stage: SpawnStage::Start, object: 0, obref_status: STATUS_SUCCESS };
            let (s1, a1) = spawn_next(s0, SpawnEvent::Created(created));
            let (s2, a2) = spawn_next(s1, SpawnEvent::Referenced(obref, object));
            let (s3, a3) = spawn_next(s2, SpawnEvent::Closed(closed));
            let (s4, a4) = spawn_next(s3, SpawnEvent::PriorityLowered);
            &&& created != STATUS_SUCCESS ==> a1 == SpawnAction::Fail(0) && s1.stage == SpawnStage::Finished
            &&& created == STATUS_SUCCESS ==> {
                &&& a1 == SpawnAction::ReferenceObject
                &&& a2 == SpawnAction::CloseHandle
                &&& (obref != STATUS_SUCCESS || closed != STATUS_SUCCESS) ==> a3 == SpawnAction::Fail(object)
                    && s3.stage == SpawnStage::Finished
                &&& (obref == STATUS_SUCCESS && closed == STATUS_SUCCESS && !low_priority) ==> a3
                    == SpawnAction::Succeed(object) && s3.stage == SpawnStage::Finished
                &&& (obref == STATUS_SUCCESS && closed == STATUS_SUCCESS && low_priority) ==> a3
                    == SpawnAction::LowerPriority(object) && spawn_expects(s3.stage, SpawnEvent::PriorityLowered)
                    && a4 == SpawnAction::Succeed(object)
            }
        }),
{
}

} // verus!
