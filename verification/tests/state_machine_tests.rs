use wfprust::callout::{install_callout_next, install_callout_start, InstallAction, InstallStep};
use wfprust::driver::{driver_entry_next, driver_entry_start, LoadAction, LoadStep};
use wfprust::kthread::{spawn_start, spawn_step, KThread, SpawnAction, SpawnEvent, SpawnStage};
use wfprust::ntfail::{nt_success, STATUS_SUCCESS};
use wfprust::spinlock::SpinLock;

const FAIL: i32 = 0xC000_0001u32 as i32;

fn run_install(statuses: &[i32]) -> (Vec<InstallStep>, i32) {
    let mut done = Vec::new();
    let mut action = install_callout_start();
    let mut i = 0;
    loop {
        match action {
            InstallAction::Perform(step) => {
                done.push(step);
                action = install_callout_next(step, statuses[i]);
                i += 1;
            }
            InstallAction::Finish(status) => return (done, status),
        }
    }
}

#[test]
fn status_success_is_zero() {
    assert!(nt_success(STATUS_SUCCESS));
    assert!(!nt_success(FAIL));
    assert!(!nt_success(1));
}

#[test]
fn install_runs_all_steps_on_success() {
    let (steps, status) = run_install(&[0, 0, 0, 0]);
    assert_eq!(
        steps,
        vec![InstallStep::RegisterCallout, InstallStep::AddCallout, InstallStep::AddSublayer, InstallStep::AddFilter]
    );
    assert_eq!(status, STATUS_SUCCESS);
}

#[test]
fn install_stops_at_first_failure() {
    let (steps, status) = run_install(&[0, FAIL, 0, 0]);
    assert_eq!(steps, vec![InstallStep::RegisterCallout, InstallStep::AddCallout]);
    assert_eq!(status, FAIL);
    let (steps, status) = run_install(&[0, 0, 0, 7]);
    assert_eq!(steps.len(), 4);
    assert_eq!(status, 7);
}

fn run_load(statuses: &[i32]) -> (usize, i32) {
    let mut n = 0;
    let mut action = driver_entry_start();
    loop {
        match action {
            LoadAction::Perform(step) => {
                action = driver_entry_next(step, statuses[n]);
                n += 1;
            }
            LoadAction::Finish(status) => return (n, status),
        }
    }
}

#[test]
fn load_ignores_callout_failures() {
    assert_eq!(run_load(&[0, 0, FAIL, FAIL]), (4, STATUS_SUCCESS));
    assert_eq!(driver_entry_next(LoadStep::InstallIpv4Callout, FAIL), LoadAction::Perform(LoadStep::InstallTransportCallout));
}

#[test]
fn load_stops_when_device_or_engine_fails() {
    assert_eq!(run_load(&[FAIL, 0, 0, 0]), (1, FAIL));
    assert_eq!(run_load(&[0, 5, 0, 0]), (2, 5));
}

#[test]
fn spin_lock_releases_only_when_held() {
    let mut lock = SpinLock::new(0x1000);
    assert_eq!(lock.spin_lock_ptr, 0x1000);
    assert!(!lock.release());
    lock.acquire();
    assert!(lock.release());
    assert!(!lock.release());
    let mut other = SpinLock::from_existing(0x2000);
    other.acquire();
    assert!(other.release());
    assert_eq!(other.spin_lock_ptr, 0x2000);
}

fn run_spawn(low: bool, created: i32, obref: i32, object: usize, closed: i32) -> (Vec<SpawnAction>, SpawnStage) {
    let mut s = spawn_start(low);
    let mut actions = Vec::new();
    let mut a = spawn_step(&mut s, SpawnEvent::Created(created));
    actions.push(a);
    if a == SpawnAction::ReferenceObject {
        a = spawn_step(&mut s, SpawnEvent::Referenced(obref, object));
        actions.push(a);
        a = spawn_step(&mut s, SpawnEvent::Closed(closed));
        actions.push(a);
        if let SpawnAction::LowerPriority(_) = a {
            a = spawn_step(&mut s, SpawnEvent::PriorityLowered);
            actions.push(a);
        }
    }
    (actions, s.stage)
}

#[test]
fn spawn_succeeds_when_all_calls_succeed() {
    let (a, stage) = run_spawn(false, 0, 0, 0x40, 0);
    assert_eq!(a, vec![SpawnAction::ReferenceObject, SpawnAction::CloseHandle, SpawnAction::Succeed(0x40)]);
    assert_eq!(stage, SpawnStage::Finished);
    let (a, _) = run_spawn(true, 0, 0, 0x40, 0);
    assert_eq!(
        a,
        vec![SpawnAction::ReferenceObject, SpawnAction::CloseHandle, SpawnAction::LowerPriority(0x40), SpawnAction::Succeed(0x40)]
    );
}

#[test]
fn spawn_fails_on_any_failure() {
    assert_eq!(run_spawn(false, FAIL, 0, 0x40, 0).0, vec![SpawnAction::Fail(0)]);
    assert_eq!(run_spawn(true, 0, FAIL, 0, 0).0.last(), Some(&SpawnAction::Fail(0)));
    assert_eq!(run_spawn(true, 0, 0, 0x40, FAIL).0.last(), Some(&SpawnAction::Fail(0x40)));
}

#[test]
fn thread_release_needs_an_object() {
    assert!(!KThread { kthread: 0 }.must_release());
    assert!(KThread { kthread: 0x40 }.must_release());
}

#[test]
fn spin_lock_reports_whether_held() {
    let mut lock = SpinLock::from_existing(0x3000);
    assert!(!lock.is_acquired());
    lock.acquire();
    assert!(lock.is_acquired());
    assert!(lock.release());
    assert!(!lock.is_acquired());
}

#[test]
fn spin_lock_acquires_and_releases_balance() {
    let mut lock = SpinLock::new(0x4000);
    let mut acquires = 0;
    let mut releases = 0;
    for round in 0..10 {
        if round % 3 != 2 && !lock.is_acquired() {
            lock.acquire();
            acquires += 1;
        } else if lock.release() {
            releases += 1;
        }
    }
    // letting the handle go releases once more if it holds the lock
    if lock.release() {
        releases += 1;
    }
    assert_eq!(acquires, releases);
    assert!(!lock.is_acquired());
}
