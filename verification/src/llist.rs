use vstd::prelude::*;

verus! {

/// The two links of a list entry: the entry after it (`flink`) and the one before it
/// (`blink`). An entry is named by its address, an index into the list's entry table.
#[derive(Clone, Copy, Debug, PartialEq, Eq)]
pub struct ListEntry {
    pub flink: usize,
    pub blink: usize,
}

/// The links in `links` form the circular doubly linked ring
/// `head -> s[0] -> s[1] -> ... -> s[last] -> head`, read forwards through `flink`
/// and backwards through `blink`.
pub open spec fn ring_wf(links: Seq<ListEntry>, head: usize, s: Seq<usize>) -> bool {
    &&& head < links.len()
    &&& s.no_duplicates()
    &&& links[head as int].flink == (if s.len() == 0 { head } else { s[0] })
    &&& links[head as int].blink == (if s.len() == 0 { head } else { s[s.len() - 1] })
    &&& forall|i: int|
        0 <= i < s.len() ==> {
            &&& #[trigger] s[i] < links.len()
            &&& s[i] != head
            &&& links[s[i] as int].flink == (if i + 1 < s.len() { s[i + 1] } else { head })
            &&& links[s[i] as int].blink == (if i > 0 { s[i - 1] } else { head })
        }
}

/// An intrusive circular doubly linked list with a head entry.
///
/// The entries live in a table owned by the list; an entry's address is its index in
/// the table. The head entry is the sentinel of the ring and never one of its elements.
pub struct List {
    links: Vec<ListEntry>,
    head: usize,
    nodes: Ghost<Seq<usize>>,
}

impl List {
    /// The entries of the list, in order from the first (after the head) to the last.
    pub closed spec fn view(&self) -> Seq<usize> {
        self.nodes@
    }

    /// The address of the head entry.
    pub closed spec fn head_entry(&self) -> usize {
        self.head
    }

    /// The number of entry addresses the table holds.
    pub closed spec fn capacity(&self) -> nat {
        self.links@.len()
    }

    /// The links form the ring of `view()` around the head.
    pub closed spec fn wf(&self) -> bool {
        ring_wf(self.links@, self.head, self.nodes@)
    }

    /// Every well-formed list holds each entry at most once, never holds its head, and
    /// holds only addresses of its table.
    pub proof fn lemma_wf_entries(&self)
        requires
            self.wf(),
        ensures
            self@.no_duplicates(),
            !self@.contains(self.head_entry()),
            self.head_entry() < self.capacity(),
            forall|i: int| 0 <= i < self@.len() ==> #[trigger] self@[i] < self.capacity(),
    {
        if self@.contains(self.head_entry()) {
            let i = choose|i: int| 0 <= i < self@.len() && self@[i] == self.head_entry();
            assert(self.nodes@[i] != self.head);
        }
    }

    /// Makes an empty list whose head is entry `head` of a table of `capacity` entries.
    pub fn init(head: usize, capacity: usize) -> (list: Self)
        requires
            head < capacity,
        ensures
            list.wf(),
            list@ == Seq::<usize>::empty(),
            list.head_entry() == head,
            list.capacity() == capacity,
    {
        let mut links: Vec<ListEntry> = Vec::new();
        let mut i: usize = 0;
        while i < capacity
            invariant
                i <= capacity,
                links.len() == i,
            decreases capacity - i,
        {
            links.push(ListEntry { flink: i, blink: i });
            i = i + 1;
        }
        Self::InitializeListHead(&mut links, head);
        let list = List { links, head, nodes: Ghost(Seq::empty()) };
        list
    }

    /// Detaches and returns the first entry. On an empty list it returns the head and
    /// leaves the list as it was.
    pub fn remove_head(&mut self) -> (entry: usize)
        requires
            old(self).wf(),
        ensures
            final(self).wf(),
            final(self).head_entry() == old(self).head_entry(),
            final(self).capacity() == old(self).capacity(),
            old(self)@.len() == 0 ==> entry == old(self).head_entry() && final(self)@ == old(self)@,
            old(self)@.len() > 0 ==> entry == old(self)@[0] && final(self)@ == old(self)@.drop_first(),
    {
        let entry = Self::RemoveHeadList(&mut self.links, self.head, Ghost(self.nodes@));
        proof {
            if self.nodes@.len() > 0 {
                self.nodes@ = self.nodes@.drop_first();
            }
        }
        entry
    }

    /// Detaches and returns the last entry. On an empty list it returns the head and
    /// leaves the list as it was.
    pub fn remove_tail(&mut self) -> (entry: usize)
        requires
            old(self).wf(),
        ensures
            final(self).wf(),
            final(self).head_entry() == old(self).head_entry(),
            final(self).capacity() == old(self).capacity(),
            old(self)@.len() == 0 ==> entry == old(self).head_entry() && final(self)@ == old(self)@,
            old(self)@.len() > 0 ==> entry == old(self)@.last() && final(self)@ == old(self)@.drop_last(),
    {
        let entry = Self::RemoveTailList(&mut self.links, self.head, Ghost(self.nodes@));
        proof {
            if self.nodes@.len() > 0 {
                self.nodes@ = self.nodes@.drop_last();
            }
        }
        entry
    }

    /// Links `entry` in as the new first entry.
    pub fn insert_head(&mut self, entry: usize)
        requires
            old(self).wf(),
            entry < old(self).capacity(),
            entry != old(self).head_entry(),
            !old(self)@.contains(entry),
        ensures
            final(self).wf(),
            final(self).head_entry() == old(self).head_entry(),
            final(self).capacity() == old(self).capacity(),
            final(self)@ == seq![entry] + old(self)@,
    {
        Self::InsertHeadList(&mut self.links, self.head, entry, Ghost(self.nodes@));
        proof {
            self.nodes@ = seq![entry] + self.nodes@;
        }
    }

    /// Links `entry` in as the new last entry.
    pub fn insert_tail(&mut self, entry: usize)
        requires
            old(self).wf(),
            entry < old(self).capacity(),
            entry != old(self).head_entry(),
            !old(self)@.contains(entry),
        ensures
            final(self).wf(),
            final(self).head_entry() == old(self).head_entry(),
            final(self).capacity() == old(self).capacity(),
            final(self)@ == old(self)@.push(entry),
    {
        Self::InsertTailList(&mut self.links, self.head, entry, Ghost(self.nodes@));
        proof {
            self.nodes@ = self.nodes@.push(entry);
        }
    }

    /// Whether the list holds no entry.
    pub fn is_empty(&mut self) -> (empty: bool)
        requires
            old(self).wf(),
        ensures
            *final(self) == *old(self),
            empty == (old(self)@.len() == 0),
    {
        Self::IsListEmpty(&self.links, self.head, Ghost(self.nodes@))
    }

    #[allow(non_snake_case)]
    fn IsListEmpty(links: &Vec<ListEntry>, head: usize, Ghost(s): Ghost<Seq<usize>>) -> (empty: bool)
        requires
            ring_wf(links@, head, s),
        ensures
            empty == (s.len() == 0),
    {
        proof {
            if s.len() > 0 {
                assert(s[0] != head);
            }
        }
        links[head].flink == head
    }

    #[allow(non_snake_case)]
    fn InitializeListHead(links: &mut Vec<ListEntry>, head: usize)
        requires
            head < old(links).len(),
        ensures
            final(links).len() == old(links).len(),
            ring_wf(final(links)@, head, Seq::empty()),
    {
        links.set(head, ListEntry { flink: head, blink: head });
    }

    #[allow(non_snake_case)]
    fn RemoveHeadList(links: &mut Vec<ListEntry>, head: usize, Ghost(s): Ghost<Seq<usize>>) -> (entry: usize)
        requires
            ring_wf(old(links)@, head, s),
        ensures
            final(links).len() == old(links).len(),
            s.len() == 0 ==> entry == head && final(links)@ == old(links)@,
            s.len() > 0 ==> entry == s[0] && ring_wf(final(links)@, head, s.drop_first()),
            entry == old(links)@[head as int].flink,
            ({
                let next = old(links)@[entry as int].flink;
                let l1 = old(links)@.update(head as int, ListEntry { flink: next, blink: old(links)@[head as int].blink });
                final(links)@ == l1.update(next as int, ListEntry { flink: l1[next as int].flink, blink: head })
            }),
    {
        let entry = links[head].flink;
        proof {
            if s.len() > 0 {
                assert(s[0] < links.len());
            }
        }
        let next = links[entry].flink;
        proof {
            if s.len() > 1 {
                assert(s[1] < links.len());
            }
        }
        // The ring is intact around the entry that leaves.
        assert(links@[entry as int].blink == head && links@[next as int].blink == entry);
        let ghost old_links = links@;
        let mut h = links[head];
        h.flink = next;
        links.set(head, h);
        let mut n = links[next];
        n.blink = head;
        links.set(next, n);
        proof {
            if s.len() == 0 {
                assert(links@ =~= old_links);
            } else {
                let t = s.drop_first();
                assert forall|i: int| 0 <= i < t.len() implies {
                    &&& #[trigger] t[i] < links@.len()
                    &&& t[i] != head
                    &&& links@[t[i] as int].flink == (if i + 1 < t.len() { t[i + 1] } else { head })
                    &&& links@[t[i] as int].blink == (if i > 0 { t[i - 1] } else { head })
                } by {
                    assert(t[i] == s[i + 1]);
                    assert(s[i + 1] != s[0]);
                    if i > 0 {
                        assert(s[i + 1] != s[1]);
                    }
                }
                assert(t.no_duplicates()) by {
                    assert forall|a: int, b: int| 0 <= a < t.len() && 0 <= b < t.len() && a != b implies t[a] != t[b] by {
                        assert(t[a] == s[a + 1] && t[b] == s[b + 1]);
                    }
                }
                if t.len() > 0 {
                    assert(s[s.len() - 1] != s[0]);
                }
            }
        }
        entry
    }

    #[allow(non_snake_case)]
    fn RemoveTailList(links: &mut Vec<ListEntry>, head: usize, Ghost(s): Ghost<Seq<usize>>) -> (entry: usize)
        requires
            ring_wf(old(links)@, head, s),
        ensures
            final(links).len() == old(links).len(),
            s.len() == 0 ==> entry == head && final(links)@ == old(links)@,
            s.len() > 0 ==> entry == s.last() && ring_wf(final(links)@, head, s.drop_last()),
            entry == old(links)@[head as int].blink,
            ({
                let prev_entry = old(links)@[entry as int].blink;
                let l1 = old(links)@.update(head as int, ListEntry { flink: old(links)@[head as int].flink, blink: prev_entry });
                final(links)@ == l1.update(prev_entry as int, ListEntry { flink: head, blink: l1[prev_entry as int].blink })
            }),
    {
        let entry = links[head].blink;
        proof {
            if s.len() > 0 {
                assert(s[s.len() - 1] < links.len());
            }
        }
        let prev_entry = links[entry].blink;
        proof {
            if s.len() > 1 {
                assert(s[s.len() - 2] < links.len());
            }
        }
        // The ring is intact around the entry that leaves.
        assert(links@[entry as int].flink == head && links@[prev_entry as int].flink == entry);
        let ghost old_links = links@;
        let mut h = links[head];
        h.blink = prev_entry;
        links.set(head, h);
        let mut p = links[prev_entry];
        p.flink = head;
        links.set(prev_entry, p);
        proof {
            if s.len() == 0 {
                assert(links@ =~= old_links);
            } else {
                let t = s.drop_last();
                let last = s.len() - 1;
                assert forall|i: int| 0 <= i < t.len() implies {
                    &&& #[trigger] t[i] < links@.len()
                    &&& t[i] != head
                    &&& links@[t[i] as int].flink == (if i + 1 < t.len() { t[i + 1] } else { head })
                    &&& links@[t[i] as int].blink == (if i > 0 { t[i - 1] } else { head })
                } by {
                    assert(t[i] == s[i]);
                    assert(s[i] != s[last]);
                    if i + 1 < t.len() {
                        assert(s[i] != s[last - 1]);
                    }
                }
                assert(t.no_duplicates()) by {
                    assert forall|a: int, b: int| 0 <= a < t.len() && 0 <= b < t.len() && a != b implies t[a] != t[b] by {
                        assert(t[a] == s[a] && t[b] == s[b]);
                    }
                }
                if t.len() > 0 {
                    assert(s[0] != s[last]);
                }
            }
        }
        entry
    }

    #[allow(non_snake_case)]
    fn InsertHeadList(links: &mut Vec<ListEntry>, head: usize, entry: usize, Ghost(s): Ghost<Seq<usize>>)
        requires
            ring_wf(old(links)@, head, s),
            entry < old(links).len(),
            entry != head,
            !s.contains(entry),
        ensures
            final(links).len() == old(links).len(),
            ring_wf(final(links)@, head, seq![entry] + s),
            ({
                let next = old(links)@[head as int].flink;
                let l1 = old(links)@.update(entry as int, ListEntry { flink: next, blink: head });
                let l2 = l1.update(next as int, ListEntry { flink: l1[next as int].flink, blink: entry });
                final(links)@ == l2.update(head as int, ListEntry { flink: entry, blink: l2[head as int].blink })
            }),
    {
        let next = links[head].flink;
        proof {
            if s.len() > 0 {
                assert(s[0] < links.len());
            }
        }
        // The ring is intact after the head.
        assert(links@[next as int].blink == head);
        let ghost old_links = links@;
        links.set(entry, ListEntry { flink: next, blink: head });
        let mut n = links[next];
        n.blink = entry;
        links.set(next, n);
        let mut h = links[head];
        h.flink = entry;
        links.set(head, h);
        proof {
            let t = seq![entry] + s;
            assert forall|i: int| 0 <= i < t.len() implies {
                &&& #[trigger] t[i] < links@.len()
                &&& t[i] != head
                &&& links@[t[i] as int].flink == (if i + 1 < t.len() { t[i + 1] } else { head })
                &&& links@[t[i] as int].blink == (if i > 0 { t[i - 1] } else { head })
            } by {
                if i > 0 {
                    assert(t[i] == s[i - 1]);
                    assert(s[i - 1] != entry);
                    if i > 1 {
                        assert(s[i - 1] != s[0]);
                    }
                    if i + 1 < t.len() {
                        assert(t[i + 1] == s[i]);
                    }
                }
            }
            assert(t.no_duplicates()) by {
                assert forall|a: int, b: int| 0 <= a < t.len() && 0 <= b < t.len() && a != b implies t[a] != t[b] by {
                    if a > 0 && b > 0 {
                        assert(t[a] == s[a - 1] && t[b] == s[b - 1]);
                    } else if a == 0 {
                        assert(t[b] == s[b - 1]);
                    } else {
                        assert(t[a] == s[a - 1]);
                    }
                }
            }
            if s.len() > 0 {
                assert(s[s.len() - 1] != entry);
                assert(t[t.len() - 1] == s[s.len() - 1]);
            }
        }
    }

    #[allow(non_snake_case)]
    fn InsertTailList(links: &mut Vec<ListEntry>, head: usize, entry: usize, Ghost(s): Ghost<Seq<usize>>)
        requires
            ring_wf(old(links)@, head, s),
            entry < old(links).len(),
            entry != head,
            !s.contains(entry),
        ensures
            final(links).len() == old(links).len(),
            ring_wf(final(links)@, head, s.push(entry)),
            ({
                let prev_entry = old(links)@[head as int].blink;
                let l1 = old(links)@.update(entry as int, ListEntry { flink: head, blink: prev_entry });
                let l2 = l1.update(prev_entry as int, ListEntry { flink: entry, blink: l1[prev_entry as int].blink });
                final(links)@ == l2.update(head as int, ListEntry { flink: l2[head as int].flink, blink: entry })
            }),
    {
        let prev_entry = links[head].blink;
        proof {
            if s.len() > 0 {
                assert(s[s.len() - 1] < links.len());
            }
        }
        // The ring is intact before the head.
        assert(links@[prev_entry as int].flink == head);
        let ghost old_links = links@;
        links.set(entry, ListEntry { flink: head, blink: prev_entry });
        let mut p = links[prev_entry];
        p.flink = entry;
        links.set(prev_entry, p);
        let mut h = links[head];
        h.blink = entry;
        links.set(head, h);
        proof {
            let t = s.push(entry);
            let n = s.len();
            assert forall|i: int| 0 <= i < t.len() implies {
                &&& #[trigger] t[i] < links@.len()
                &&& t[i] != head
                &&& links@[t[i] as int].flink == (if i + 1 < t.len() { t[i + 1] } else { head })
                &&& links@[t[i] as int].blink == (if i > 0 { t[i - 1] } else { head })
            } by {
                if i < n {
                    assert(t[i] == s[i]);
                    assert(s[i] != entry);
                    if i + 1 < n {
                        assert(s[i] != s[n - 1]);
                    }
                    if i > 0 {
                        assert(t[i - 1] == s[i - 1]);
                    }
                }
            }
            assert(t.no_duplicates()) by {
                assert forall|a: int, b: int| 0 <= a < t.len() && 0 <= b < t.len() && a != b implies t[a] != t[b] by {
                    if a < n && b < n {
                        assert(t[a] == s[a] && t[b] == s[b]);
                    } else if a == n {
                        assert(t[b] == s[b]);
                    } else {
                        assert(t[a] == s[a]);
                    }
                }
            }
            if s.len() > 0 {
                assert(s[0] != entry);
                assert(t[0] == s[0]);
            }
        }
    }
}

/// An entry put in at the head is the next one taken from the head, and taking it leaves
/// the list as it was before.
pub proof fn lemma_insert_head_then_remove_head(s: Seq<usize>, entry: usize)
    ensures
        (seq![entry] + s).len() > 0,
        (seq![entry] + s)[0] == entry,
        (seq![entry] + s).drop_first() == s,
{
    assert((seq![entry] + s).drop_first() =~= s);
}

/// An entry put in at the tail is the next one taken from the tail, and taking it leaves
/// the list as it was before.
pub proof fn lemma_insert_tail_then_remove_tail(s: Seq<usize>, entry: usize)
    ensures
        s.push(entry).len() > 0,
        s.push(entry).last() == entry,
        s.push(entry).drop_last() == s,
{
    assert(s.push(entry).drop_last() =~= s);
}

/// Put in at the tail and taken from the head, entries come out in the order they went in:
/// putting one in at the tail does not change which entry the head gives next, nor what
/// follows it.
pub proof fn lemma_insert_tail_then_remove_head(s: Seq<usize>, entry: usize)
    requires
        s.len() > 0,
    ensures
        s.push(entry)[0] == s[0],
        s.push(entry).drop_first() == s.drop_first().push(entry),
{
    assert(s.push(entry).drop_first() =~= s.drop_first().push(entry));
}

} // verus!
