use vstd::prelude::*;
use crate::llist::List;

verus! {

/// How far the spin lock self-test counts.
pub const LIMIT: u32 = 4294967295u32;

/// How many worker threads the spin lock self-test starts.
pub const NUM_THREADS: u32 = 15;

/// How many increments each worker thread makes.
pub const MAX_PER_THREAD: u32 = LIMIT / NUM_THREADS;

/// The workers' increments together reach the limit exactly, so the shared counter never
/// overflows.
pub proof fn lemma_workers_reach_limit()
    ensures
        NUM_THREADS * MAX_PER_THREAD == LIMIT,
{
}

/// The count the shared counter should end at once every worker is done.
pub fn total_increments() -> (total: u32)
    ensures
        total == NUM_THREADS * MAX_PER_THREAD,
        total == LIMIT,
{
    NUM_THREADS * MAX_PER_THREAD
}

/// A record with a list entry in its middle, as the list self-test uses; `entry` is the
/// address of its entry in the list's table.
pub struct Container {
    pub item1: u8,
    pub item2: u16,
    pub item3: i32,
    pub entry: usize,
    pub item4: u64,
}

/// The container holds the four items given; its entry is not looked at.
pub open spec fn container_holds(c: Container, i1: u8, i2: u16, i3: i32, i4: u64) -> bool {
    c.item1 == i1 && c.item2 == i2 && c.item3 == i3 && c.item4 == i4
}

/// A container holding the four items, with its entry at `entry`.
pub fn init_container(i1: u8, i2: u16, i3: i32, i4: u64, entry: usize) -> (c: Container)
    ensures
        c == (Container { item1: i1, item2: i2, item3: i3, entry, item4: i4 }),
{
    Container { item1: i1, item2: i2, item3: i3, entry, item4: i4 }
}

/// Whether the container holds the four items given.
pub fn check_container(container: &Container, i1: u8, i2: u16, i3: i32, i4: u64) -> (ok: bool)
    ensures
        ok == container_holds(*container, i1, i2, i3, i4),
{
    container.item1 == i1 && container.item2 == i2 && container.item3 == i3 && container.item4 == i4
}

/// A container made with four items checks against four items exactly when they are the
/// same, whatever its entry.
pub proof fn lemma_init_then_check(
    i1: u8,
    i2: u16,
    i3: i32,
    i4: u64,
    entry: usize,
    j1: u8,
    j2: u16,
    j3: i32,
    j4: u64,
)
    ensures
        container_holds(Container { item1: i1, item2: i2, item3: i3, entry, item4: i4 }, j1, j2, j3, j4) == (i1
            == j1 && i2 == j2 && i3 == j3 && i4 == j4),
{
}

/// The container whose entry is at `entry`.
fn containing_record(containers: &Vec<Container>, entry: usize) -> (c: &Container)
    requires
        exists|i: int| 0 <= i < containers.len() && containers@[i].entry == entry,
    ensures
        c.entry == entry,
        exists|i: int| 0 <= i < containers.len() && containers@[i] == *c,
{
    let mut i: usize = 0;
    while i < containers.len()
        invariant
            i <= containers.len(),
            exists|k: int| i <= k < containers.len() && containers@[k].entry == entry,
        decreases containers.len() - i,
    {
        if containers[i].entry == entry {
            return &containers[i];
        }
        i = i + 1;
    }
    &containers[0]
}

/// A check of the list self-test that did not hold.
#[derive(Clone, Copy, Debug, PartialEq, Eq, Structural)]
pub enum ListCheckFault {
    /// The list was not empty right after it was made.
    NotEmptyAtStart,
    /// The list was empty while it still held an entry.
    EmptyInMiddle,
    /// The list was not empty after every entry was taken out.
    NotEmptyAtEnd,
    /// The entry taken from the head did not lead to the container put in second.
    BadHeadContainer,
    /// The entry taken from the tail did not lead to the container put in third.
    BadTailContainer,
}

/// Exercises the list on three containers: two entries in at the head, one out at the tail,
/// one in at the tail, then one out at each end. Returns the checks that failed; there are
/// none.
pub fn test_linked_list() -> (faults: Vec<ListCheckFault>)
    ensures
        faults@.len() == 0,
{
    let mut faults: Vec<ListCheckFault> = Vec::new();
    let head: usize = 0;
    let mut list = List::init(head, 4);

    if !list.is_empty() {
        faults.push(ListCheckFault::NotEmptyAtStart);
    }

    let c1 = init_container(1, 2, 3, 4, 1);
    list.insert_head(c1.entry);

    let c2 = init_container(5, 6, 7, 8, 2);
    assert(list@ =~= seq![1usize]);
    list.insert_head(c2.entry);

    let _t = list.remove_tail();

    if list.is_empty() {
        faults.push(ListCheckFault::EmptyInMiddle);
    }

    let c3 = init_container(9, 10, 11, 12, 3);
    assert(list@ =~= seq![2usize]);
    list.insert_tail(c3.entry);

    let h = list.remove_head();
    let t = list.remove_tail();

    if !list.is_empty() {
        faults.push(ListCheckFault::NotEmptyAtEnd);
    }

    let mut containers: Vec<Container> = Vec::new();
    containers.push(c1);
    containers.push(c2);
    containers.push(c3);
    assert(containers@[1].entry == h);
    assert(containers@[2].entry == t);

    let ch = containing_record(&containers, h);
    let ct = containing_record(&containers, t);

    if !check_container(ch, 5, 6, 7, 8) {
        faults.push(ListCheckFault::BadHeadContainer);
    }

    if !check_container(ct, 9, 10, 11, 12) {
        faults.push(ListCheckFault::BadTailContainer);
    }

    faults
}

} // verus!
