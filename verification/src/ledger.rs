//! Per-domain resource ledger.
//!
//! For every domain the ledger remembers each live page allocation made
//! through the capability surface, and the addresses of the three shim
//! objects (syscall shim, shared-heap allocator, task shim) handed to the
//! domain at activation. A crash tears the whole entry down at once, which
//! is what makes reclamation deterministic.

use vstd::prelude::*;

verus! {

/// One live page allocation: `count` contiguous frames starting at frame
/// number `start`.
#[derive(Clone, Copy, PartialEq, Eq, Structural)]
pub struct PageSpan {
    pub start: usize,
    pub count: usize,
}

/// Everything the ledger holds for one domain.
pub struct DomainResources {
    /// Live page allocations, most recent last.
    pub pages: Vec<PageSpan>,
    /// Address of the syscall shim given to the domain, once registered.
    pub syscall_shim: Option<usize>,
    /// Address of the shared-heap allocator given to the domain.
    pub heap_shim: Option<usize>,
    /// Address of the task shim given to the domain.
    pub task_shim: Option<usize>,
}

impl DomainResources {
    /// An entry with no allocations and no shims yet.
    pub fn empty() -> (r: DomainResources)
        ensures
            r.pages@ == Seq::<PageSpan>::empty(),
            r.syscall_shim is None,
            r.heap_shim is None,
            r.task_shim is None,
    {
        DomainResources { pages: Vec::new(), syscall_shim: None, heap_shim: None, task_shim: None }
    }
}

/// Total frame count of a sequence of spans.
pub open spec fn spans_total(s: Seq<PageSpan>) -> int
    decreases s.len(),
{
    if s.len() == 0 {
        0
    } else {
        spans_total(s.drop_last()) + s.last().count
    }
}

/// The spans of `s` whose start frame is not `start`.
pub open spec fn without_start(s: Seq<PageSpan>, start: usize) -> Seq<PageSpan> {
    s.filter(|p: PageSpan| p.start != start)
}

/// True iff some entry of `s` belongs to domain `d`.
pub open spec fn seq_has_dom(s: Seq<(u64, DomainResources)>, d: u64) -> bool {
    exists|i: int| 0 <= i < s.len() && s[i].0 == d
}

/// Appending an entry for `kv.0` makes exactly that domain newly present.
pub proof fn lemma_dom_push(s: Seq<(u64, DomainResources)>, kv: (u64, DomainResources))
    ensures
        forall|e: u64| seq_has_dom(s.push(kv), e) <==> (seq_has_dom(s, e) || e == kv.0),
{
    assert forall|e: u64| seq_has_dom(s.push(kv), e) implies (seq_has_dom(s, e) || e
        == kv.0) by {
        let i = choose|i: int| 0 <= i < s.push(kv).len() && s.push(kv)[i].0 == e;
        if i < s.len() {
            assert(s[i].0 == e);
        }
    }
    assert forall|e: u64| (seq_has_dom(s, e) || e == kv.0) implies seq_has_dom(
        s.push(kv),
        e,
    ) by {
        if seq_has_dom(s, e) {
            let i = choose|i: int| 0 <= i < s.len() && s[i].0 == e;
            assert(s.push(kv)[i].0 == e);
        } else {
            assert(s.push(kv)[s.len() as int].0 == e);
        }
    }
}

/// Updating an entry without changing its domain id leaves the set of
/// present domains unchanged.
pub proof fn lemma_dom_update(s: Seq<(u64, DomainResources)>, i: int, v: (u64, DomainResources))
    requires
        0 <= i < s.len(),
        v.0 == s[i].0,
    ensures
        forall|e: u64| seq_has_dom(s.update(i, v), e) <==> seq_has_dom(s, e),
{
    let t = s.update(i, v);
    assert forall|e: u64| seq_has_dom(t, e) implies seq_has_dom(s, e) by {
        let j = choose|j: int| 0 <= j < t.len() && t[j].0 == e;
        if j == i {
            assert(s[i].0 == e);
        } else {
            assert(s[j].0 == e);
        }
    }
    assert forall|e: u64| seq_has_dom(s, e) implies seq_has_dom(t, e) by {
        let j = choose|j: int| 0 <= j < s.len() && s[j].0 == e;
        if j == i {
            assert(t[i].0 == e);
        } else {
            assert(t[j].0 == e);
        }
    }
}

/// The ledger: one entry per domain id, ids pairwise distinct.
pub struct ResourceLedger {
    pub entries: Vec<(u64, DomainResources)>,
}

impl ResourceLedger {
    /// Domain ids are pairwise distinct.
    pub open spec fn wf(self) -> bool {
        forall|i: int, j: int|
            0 <= i < j < self.entries@.len() ==> self.entries@[i].0 != self.entries@[j].0
    }

    /// True iff the ledger holds an entry for `d`.
    pub open spec fn spec_contains(self, d: u64) -> bool {
        seq_has_dom(self.entries@, d)
    }

    /// The index of the entry for `d`, where one exists.
    pub open spec fn idx_of(self, d: u64) -> int {
        choose|i: int| 0 <= i < self.entries@.len() && self.entries@[i].0 == d
    }

    /// The page spans currently recorded for `d` (empty if no entry).
    pub open spec fn pages_of(self, d: u64) -> Seq<PageSpan> {
        if self.spec_contains(d) {
            self.entries@[self.idx_of(d)].1.pages@
        } else {
            Seq::<PageSpan>::empty()
        }
    }

    /// The resources currently recorded for `d`.
    pub open spec fn resources_of(self, d: u64) -> DomainResources
        recommends
            self.spec_contains(d),
    {
        self.entries@[self.idx_of(d)].1
    }

    /// An empty ledger.
    pub fn new() -> (r: ResourceLedger)
        ensures
            r.entries@.len() == 0,
            r.wf(),
    {
        ResourceLedger { entries: Vec::new() }
    }

    /// Finds the position of the entry for domain `d`.
    pub fn find(&self, d: u64) -> (r: Option<usize>)
        ensures
            match r {
                Some(i) => i < self.entries@.len() && self.entries@[i as int].0 == d
                    && self.spec_contains(d),
                None => !self.spec_contains(d),
            },
    {
        let mut i: usize = 0;
        while i < self.entries.len()
            invariant
                i <= self.entries@.len(),
                forall|k: int| 0 <= k < i ==> self.entries@[k].0 != d,
            decreases self.entries@.len() - i,
        {
            if self.entries[i].0 == d {
                return Some(i);
            }
            i = i + 1;
        }
        None
    }

    /// True iff the ledger holds an entry for `d`.
    pub fn contains_domain(&self, d: u64) -> (r: bool)
        ensures
            r == self.spec_contains(d),
    {
        self.find(d).is_some()
    }

    /// Makes sure an entry for `d` exists, creating an empty one if needed;
    /// returns its position.
    pub fn ensure_entry(&mut self, d: u64) -> (i: usize)
        requires
            old(self).wf(),
        ensures
            final(self).wf(),
            i < final(self).entries@.len(),
            final(self).entries@[i as int].0 == d,
            final(self).idx_of(d) == i,
            final(self).spec_contains(d),
            old(self).spec_contains(d) ==> final(self).entries@ == old(self).entries@,
            !old(self).spec_contains(d) ==> final(self).entries@.len() == old(
                self,
            ).entries@.len() + 1 && final(self).entries@.drop_last() == old(self).entries@
                && final(self).entries@.last().0 == d
                && final(self).entries@.last().1.pages@ == Seq::<PageSpan>::empty()
                && final(self).entries@.last().1.syscall_shim is None
                && final(self).entries@.last().1.heap_shim is None
                && final(self).entries@.last().1.task_shim is None,
            old(self).spec_contains(d) ==> old(self).idx_of(d) == i,
            forall|e: u64| final(self).spec_contains(e) <==> (old(self).spec_contains(e) || e == d),
    {
        let r = self.find(d);
        match r {
            Some(i) => {
                proof {
                    assert(self.idx_of(d) == i) by {
                        let j = self.idx_of(d);
                        assert(0 <= j < self.entries@.len() && self.entries@[j].0 == d);
                    }
                }
                i
            },
            None => {
                let ghost pre = self.entries@;
                let i = self.entries.len();
                self.entries.push((d, DomainResources::empty()));
                proof {
                    lemma_dom_push(pre, self.entries@.last());
                    assert(self.entries@[i as int].0 == d);
                    assert(self.entries@.drop_last() =~= pre);
                    assert(self.wf()) by {
                        assert forall|x: int, y: int|
                            0 <= x < y < self.entries@.len() implies self.entries@[x].0
                            != self.entries@[y].0 by {
                            if y < i {
                                assert(pre[x].0 != pre[y].0);
                            } else {
                                assert(self.entries@[y].0 == d);
                                assert(self.entries@[x] == pre[x]);
                                assert(!seq_has_dom(pre, d));
                                assert(pre[x].0 != d);
                            }
                        }
                    }
                    assert(self.idx_of(d) == i) by {
                        let j = self.idx_of(d);
                        assert(0 <= j < self.entries@.len() && self.entries@[j].0 == d);
                        if j != i {
                            assert(pre[j].0 == d);
                        }
                    }
                }
                i
            },
        }
    }

    /// Records a live page allocation for domain `d`.
    pub fn record_pages(&mut self, d: u64, span: PageSpan)
        requires
            old(self).wf(),
        ensures
            final(self).wf(),
            final(self).spec_contains(d),
            final(self).pages_of(d) == old(self).pages_of(d).push(span),
            final(self).resources_of(d).syscall_shim == (if old(self).spec_contains(d) {
                old(self).resources_of(d).syscall_shim
            } else {
                None::<usize>
            }),
            final(self).resources_of(d).heap_shim == (if old(self).spec_contains(d) {
                old(self).resources_of(d).heap_shim
            } else {
                None::<usize>
            }),
            final(self).resources_of(d).task_shim == (if old(self).spec_contains(d) {
                old(self).resources_of(d).task_shim
            } else {
                None::<usize>
            }),
            forall|e: u64| final(self).spec_contains(e) <==> (old(self).spec_contains(e) || e == d),
            forall|k: int|
                0 <= k < final(self).entries@.len() && final(self).entries@[k].0 != d
                    ==> #[trigger] final(self).entries@[k] == old(self).entries@[k],
            old(self).spec_contains(d) ==> final(self).entries@.len() == old(self).entries@.len()
                && final(self).idx_of(d) == old(self).idx_of(d),
            !old(self).spec_contains(d) ==> final(self).entries@.len() == old(
                self,
            ).entries@.len() + 1 && final(self).idx_of(d) == old(self).entries@.len(),
    {
        let i = self.ensure_entry(d);
        let ghost mid = self.entries@;
        let entry = &mut self.entries[i];
        entry.1.pages.push(span);
        proof {
            lemma_dom_update(mid, i as int, self.entries@[i as int]);
            assert(self.wf()) by {
                assert forall|x: int, y: int|
                    0 <= x < y < self.entries@.len() implies self.entries@[x].0
                    != self.entries@[y].0 by {
                    assert(mid[x].0 == self.entries@[x].0);
                    assert(mid[y].0 == self.entries@[y].0);
                }
            }
            assert(self.idx_of(d) == i) by {
                let j = self.idx_of(d);
                assert(0 <= j < self.entries@.len() && self.entries@[j].0 == d);
            }
        }
    }

    /// Removes every page span of domain `d` whose start frame is `start`;
    /// returns the total frame count removed. The ledger is untouched
    /// unless such a span was recorded.
    pub fn remove_pages_at(&mut self, d: u64, start: usize) -> (freed: usize)
        requires
            old(self).wf(),
            spans_total(old(self).pages_of(d)) <= usize::MAX,
        ensures
            final(self).wf(),
            forall|e: u64| final(self).spec_contains(e) == old(self).spec_contains(e),
            !old(self).spec_contains(d) ==> final(self).entries@ == old(self).entries@ && freed
                == 0,
            old(self).spec_contains(d) ==> final(self).pages_of(d) == without_start(
                old(self).pages_of(d),
                start,
            ) && freed == spans_total(old(self).pages_of(d)) - spans_total(final(self).pages_of(d))
                && final(self).resources_of(d).syscall_shim == old(self).resources_of(
                d,
            ).syscall_shim && final(self).resources_of(d).heap_shim == old(self).resources_of(
                d,
            ).heap_shim && final(self).resources_of(d).task_shim == old(self).resources_of(
                d,
            ).task_shim,
            forall|k: int|
                0 <= k < final(self).entries@.len() && final(self).entries@[k].0 != d
                    ==> #[trigger] final(self).entries@[k] == old(self).entries@[k],
            final(self).entries@.len() == old(self).entries@.len(),
            old(self).spec_contains(d) ==> final(self).idx_of(d) == old(self).idx_of(d),
    {
        let found = self.find(d);
        match found {
            None => 0,
            Some(i) => {
                proof {
                    assert(self.idx_of(d) == i) by {
                        let j = self.idx_of(d);
                        assert(0 <= j < self.entries@.len() && self.entries@[j].0 == d);
                    }
                }
                let ghost pre = self.entries@[i as int].1.pages@;
                proof {
                    lemma_spans_total_nonneg(pre);
                    assert(pre.take(0) =~= Seq::<PageSpan>::empty());
                    reveal(Seq::filter);
                    assert(without_start(pre.take(0), start) =~= Seq::<PageSpan>::empty());
                }
                let mut kept: Vec<PageSpan> = Vec::new();
                let mut freed: usize = 0;
                let mut k: usize = 0;
                let n = self.entries[i].1.pages.len();
                while k < n
                    invariant
                        0 <= i < self.entries@.len(),
                        self.entries@[i as int].1.pages@ == pre,
                        n == pre.len(),
                        k <= n,
                        kept@ == without_start(pre.take(k as int), start),
                        spans_total(kept@) >= 0,
                        freed == spans_total(pre.take(k as int)) - spans_total(kept@),
                        spans_total(pre.take(k as int)) <= spans_total(pre),
                        spans_total(pre) <= usize::MAX,
                    decreases n - k,
                {
                    let sp = self.entries[i].1.pages[k];
                    proof {
                        lemma_without_start_step(pre, k as int, start);
                        lemma_spans_total_take_step(pre, k as int);
                        lemma_spans_total_take_le(pre, k + 1);
                    }
                    let ghost kept_pre = kept@;
                    if sp.start != start {
                        kept.push(sp);
                        proof {
                            assert(kept@.drop_last() =~= kept_pre);
                            assert(spans_total(kept@) == spans_total(kept_pre) + sp.count);
                        }
                    } else {
                        freed = freed + sp.count;
                    }
                    k = k + 1;
                }
                proof {
                    assert(pre.take(n as int) =~= pre);
                }
                let ghost mid = self.entries@;
                let entry = &mut self.entries[i];
                entry.1.pages = kept;
                proof {
                    lemma_dom_update(mid, i as int, self.entries@[i as int]);
                    assert(self.wf()) by {
                        assert forall|x: int, y: int|
                            0 <= x < y < self.entries@.len() implies self.entries@[x].0
                            != self.entries@[y].0 by {
                            assert(mid[x].0 == self.entries@[x].0);
                            assert(mid[y].0 == self.entries@[y].0);
                        }
                    }
                    assert(self.idx_of(d) == i) by {
                        let j = self.idx_of(d);
                        assert(0 <= j < self.entries@.len() && self.entries@[j].0 == d);
                    }
                }
                freed
            },
        }
    }

    /// Removes the whole entry for domain `d`, returning it.
    pub fn remove_domain(&mut self, d: u64) -> (r: Option<DomainResources>)
        requires
            old(self).wf(),
        ensures
            final(self).wf(),
            !final(self).spec_contains(d),
            forall|e: u64|
                e != d ==> (final(self).spec_contains(e) == old(self).spec_contains(e)),
            old(self).spec_contains(d) ==> {
                &&& r is Some
                &&& r->Some_0.pages@ == old(self).pages_of(d)
                &&& final(self).entries@ == old(self).entries@.remove(old(self).idx_of(d))
            },
            !old(self).spec_contains(d) ==> r is None && final(self).entries@ == old(self).entries@,
            forall|e: u64|
                e != d && final(self).spec_contains(e)
                    ==> final(self).entries@[final(self).idx_of(e)]
                        == old(self).entries@[old(self).idx_of(e)],
    {
        let found = self.find(d);
        match found {
            None => None,
            Some(i) => {
                proof {
                    assert(self.idx_of(d) == i) by {
                        let j = self.idx_of(d);
                        assert(0 <= j < self.entries@.len() && self.entries@[j].0 == d);
                    }
                }
                let ghost pre = self.entries@;
                let (_, res) = self.entries.remove(i);
                proof {
                    assert forall|x: int, y: int|
                        0 <= x < y < self.entries@.len() implies self.entries@[x].0
                        != self.entries@[y].0 by {
                        if y < i {
                        } else if x < i {
                            assert(self.entries@[y] == pre[y + 1]);
                        } else {
                            assert(self.entries@[x] == pre[x + 1]);
                            assert(self.entries@[y] == pre[y + 1]);
                        }
                    }
                    assert(!self.spec_contains(d)) by {
                        if self.spec_contains(d) {
                            let j = self.idx_of(d);
                            assert(0 <= j < self.entries@.len() && self.entries@[j].0 == d);
                            let x = if j < i {
                                j
                            } else {
                                j + 1
                            };
                            assert(pre[x].0 == d && pre[i as int].0 == d && x != i);
                        }
                    }
                    assert forall|e: u64| e != d && seq_has_dom(pre, e) implies self.spec_contains(
                        e,
                    ) by {
                        let j = choose|j: int| 0 <= j < pre.len() && pre[j].0 == e;
                        assert(j != i);
                        if j < i {
                            assert(self.entries@[j] == pre[j]);
                        } else {
                            assert(self.entries@[j - 1] == pre[j]);
                        }
                    }
                    assert forall|e: u64| e != d && self.spec_contains(e) implies seq_has_dom(
                        pre,
                        e,
                    ) by {
                        let j = self.idx_of(e);
                        assert(0 <= j < self.entries@.len() && self.entries@[j].0 == e);
                        if j < i {
                            assert(pre[j] == self.entries@[j]);
                        } else {
                            assert(pre[j + 1] == self.entries@[j]);
                        }
                    }
                    assert forall|e: u64| e != d && self.spec_contains(e) implies self
                        .entries@[self.idx_of(e)] == pre[choose|jo: int|
                        0 <= jo < pre.len() && pre[jo].0 == e] by {
                        let j = self.idx_of(e);
                        assert(0 <= j < self.entries@.len() && self.entries@[j].0 == e);
                        let jo = choose|jo: int| 0 <= jo < pre.len() && pre[jo].0 == e;
                        let x = if j < i {
                            j
                        } else {
                            j + 1
                        };
                        assert(self.entries@[j] == pre[x]);
                        assert(pre[x].0 == e && pre[jo].0 == e);
                        assert(x == jo);
                    }
                }
                Some(res)
            },
        }
    }

    /// Sets the syscall-shim address of domain `d`.
    pub fn set_syscall_shim(&mut self, d: u64, addr: usize)
        requires
            old(self).wf(),
        ensures
            final(self).wf(),
            final(self).spec_contains(d),
            final(self).resources_of(d).syscall_shim == Some(addr),
            final(self).resources_of(d).heap_shim == (if old(self).spec_contains(d) {
                old(self).resources_of(d).heap_shim
            } else {
                None::<usize>
            }),
            final(self).resources_of(d).task_shim == (if old(self).spec_contains(d) {
                old(self).resources_of(d).task_shim
            } else {
                None::<usize>
            }),
            final(self).pages_of(d) == old(self).pages_of(d),
            forall|e: u64| final(self).spec_contains(e) <==> (old(self).spec_contains(e) || e == d),
            forall|k: int|
                0 <= k < final(self).entries@.len() && final(self).entries@[k].0 != d
                    ==> #[trigger] final(self).entries@[k] == old(self).entries@[k],
            old(self).spec_contains(d) ==> final(self).entries@.len() == old(self).entries@.len()
                && final(self).idx_of(d) == old(self).idx_of(d),
            !old(self).spec_contains(d) ==> final(self).entries@.len() == old(
                self,
            ).entries@.len() + 1 && final(self).idx_of(d) == old(self).entries@.len(),
    {
        let i = self.ensure_entry(d);
        let ghost mid = self.entries@;
        let entry = &mut self.entries[i];
        entry.1.syscall_shim = Some(addr);
        proof {
            self.lemma_shim_update(mid, i, d);
        }
    }

    /// Sets the shared-heap allocator address of domain `d`.
    pub fn set_heap_shim(&mut self, d: u64, addr: usize)
        requires
            old(self).wf(),
        ensures
            final(self).wf(),
            final(self).spec_contains(d),
            final(self).resources_of(d).heap_shim == Some(addr),
            final(self).resources_of(d).syscall_shim == (if old(self).spec_contains(d) {
                old(self).resources_of(d).syscall_shim
            } else {
                None::<usize>
            }),
            final(self).resources_of(d).task_shim == (if old(self).spec_contains(d) {
                old(self).resources_of(d).task_shim
            } else {
                None::<usize>
            }),
            final(self).pages_of(d) == old(self).pages_of(d),
            forall|e: u64| final(self).spec_contains(e) <==> (old(self).spec_contains(e) || e == d),
            forall|k: int|
                0 <= k < final(self).entries@.len() && final(self).entries@[k].0 != d
                    ==> #[trigger] final(self).entries@[k] == old(self).entries@[k],
            old(self).spec_contains(d) ==> final(self).entries@.len() == old(self).entries@.len()
                && final(self).idx_of(d) == old(self).idx_of(d),
            !old(self).spec_contains(d) ==> final(self).entries@.len() == old(
                self,
            ).entries@.len() + 1 && final(self).idx_of(d) == old(self).entries@.len(),
    {
        let i = self.ensure_entry(d);
        let ghost mid = self.entries@;
        let entry = &mut self.entries[i];
        entry.1.heap_shim = Some(addr);
        proof {
            self.lemma_shim_update(mid, i, d);
        }
    }

    /// Sets the task-shim address of domain `d`.
    pub fn set_task_shim(&mut self, d: u64, addr: usize)
        requires
            old(self).wf(),
        ensures
            final(self).wf(),
            final(self).spec_contains(d),
            final(self).resources_of(d).task_shim == Some(addr),
            final(self).resources_of(d).syscall_shim == (if old(self).spec_contains(d) {
                old(self).resources_of(d).syscall_shim
            } else {
                None::<usize>
            }),
            final(self).resources_of(d).heap_shim == (if old(self).spec_contains(d) {
                old(self).resources_of(d).heap_shim
            } else {
                None::<usize>
            }),
            final(self).pages_of(d) == old(self).pages_of(d),
            forall|e: u64| final(self).spec_contains(e) <==> (old(self).spec_contains(e) || e == d),
            forall|k: int|
                0 <= k < final(self).entries@.len() && final(self).entries@[k].0 != d
                    ==> #[trigger] final(self).entries@[k] == old(self).entries@[k],
            old(self).spec_contains(d) ==> final(self).entries@.len() == old(self).entries@.len()
                && final(self).idx_of(d) == old(self).idx_of(d),
            !old(self).spec_contains(d) ==> final(self).entries@.len() == old(
                self,
            ).entries@.len() + 1 && final(self).idx_of(d) == old(self).entries@.len(),
    {
        let i = self.ensure_entry(d);
        let ghost mid = self.entries@;
        let entry = &mut self.entries[i];
        entry.1.task_shim = Some(addr);
        proof {
            self.lemma_shim_update(mid, i, d);
        }
    }

    /// After updating entry `i` of `mid` (whose key is `d`) in place, the
    /// ledger is still well formed, `d` still sits at `i`, and every other
    /// domain is untouched.
    proof fn lemma_shim_update(self, mid: Seq<(u64, DomainResources)>, i: usize, d: u64)
        requires
            0 <= i < mid.len(),
            mid[i as int].0 == d,
            self.entries@.len() == mid.len(),
            self.entries@ == mid.update(i as int, self.entries@[i as int]),
            self.entries@[i as int].0 == d,
            forall|x: int, y: int| 0 <= x < y < mid.len() ==> mid[x].0 != mid[y].0,
        ensures
            self.wf(),
            self.idx_of(d) == i,
            self.spec_contains(d),
            forall|e: u64| self.spec_contains(e) <==> seq_has_dom(mid, e),
    {
        lemma_dom_update(mid, i as int, self.entries@[i as int]);
        assert(self.wf()) by {
            assert forall|x: int, y: int|
                0 <= x < y < self.entries@.len() implies self.entries@[x].0
                != self.entries@[y].0 by {
                assert(mid[x].0 == self.entries@[x].0);
                assert(mid[y].0 == self.entries@[y].0);
            }
        }
        assert(self.entries@[i as int].0 == d);
        assert(self.idx_of(d) == i) by {
            let j = self.idx_of(d);
            assert(0 <= j < self.entries@.len() && self.entries@[j].0 == d);
        }
    }
}

/// A span total is never negative.
pub proof fn lemma_spans_total_nonneg(s: Seq<PageSpan>)
    ensures
        spans_total(s) >= 0,
    decreases s.len(),
{
    if s.len() > 0 {
        lemma_spans_total_nonneg(s.drop_last());
    }
}

/// A prefix of a span sequence totals no more than the whole.
pub proof fn lemma_spans_total_take_le(s: Seq<PageSpan>, k: int)
    requires
        0 <= k <= s.len(),
    ensures
        spans_total(s.take(k)) <= spans_total(s),
        spans_total(s.take(k)) >= 0,
    decreases s.len() - k,
{
    lemma_spans_total_nonneg(s.take(k));
    if k == s.len() {
        assert(s.take(k) =~= s);
    } else {
        lemma_spans_total_take_step(s, k);
        lemma_spans_total_take_le(s, k + 1);
    }
}

/// Extending a span prefix by one extends its total by that span's count.
pub proof fn lemma_spans_total_take_step(s: Seq<PageSpan>, k: int)
    requires
        0 <= k < s.len(),
    ensures
        spans_total(s.take(k + 1)) == spans_total(s.take(k)) + s[k].count,
{
    assert(s.take(k + 1).drop_last() =~= s.take(k));
    assert(s.take(k + 1).last() == s[k]);
}

/// One step of filtering out the spans at `start`.
pub proof fn lemma_without_start_step(s: Seq<PageSpan>, k: int, start: usize)
    requires
        0 <= k < s.len(),
    ensures
        s[k].start != start ==> without_start(s.take(k + 1), start) == without_start(
            s.take(k),
            start,
        ).push(s[k]),
        s[k].start == start ==> without_start(s.take(k + 1), start) == without_start(
            s.take(k),
            start,
        ),
{
    reveal(Seq::filter);
    assert(s.take(k + 1).drop_last() =~= s.take(k));
    assert(s.take(k + 1).last() == s[k]);
}

} // verus!

verus! {

/// Total frame count recorded across all ledger entries.
pub open spec fn ledger_total(s: Seq<(u64, DomainResources)>) -> int
    decreases s.len(),
{
    if s.len() == 0 {
        0
    } else {
        ledger_total(s.drop_last()) + spans_total(s.last().1.pages@)
    }
}

/// A ledger total is never negative.
pub proof fn lemma_ledger_total_nonneg(s: Seq<(u64, DomainResources)>)
    ensures
        ledger_total(s) >= 0,
    decreases s.len(),
{
    if s.len() > 0 {
        lemma_ledger_total_nonneg(s.drop_last());
        lemma_spans_total_nonneg(s.last().1.pages@);
    }
}

/// Appending an entry adds its pages to the total.
pub proof fn lemma_ledger_total_push(s: Seq<(u64, DomainResources)>, e: (u64, DomainResources))
    ensures
        ledger_total(s.push(e)) == ledger_total(s) + spans_total(e.1.pages@),
{
    assert(s.push(e).drop_last() =~= s);
    assert(s.push(e).last() == e);
}

/// Changing one entry shifts the total by the change in its pages.
pub proof fn lemma_ledger_total_update(
    pre: Seq<(u64, DomainResources)>,
    post: Seq<(u64, DomainResources)>,
    i: int,
)
    requires
        pre.len() == post.len(),
        0 <= i < pre.len(),
        forall|k: int| 0 <= k < pre.len() && k != i ==> post[k] == pre[k],
    ensures
        ledger_total(post) == ledger_total(pre) - spans_total(pre[i].1.pages@) + spans_total(
            post[i].1.pages@,
        ),
    decreases pre.len(),
{
    if i == pre.len() - 1 {
        assert(pre.drop_last() =~= post.drop_last());
    } else {
        lemma_ledger_total_update(pre.drop_last(), post.drop_last(), i);
        assert(pre.drop_last()[i] == pre[i]);
        assert(post.drop_last()[i] == post[i]);
        assert(pre.last() == post.last());
    }
}

/// Removing one entry subtracts its pages from the total.
pub proof fn lemma_ledger_total_remove(s: Seq<(u64, DomainResources)>, i: int)
    requires
        0 <= i < s.len(),
    ensures
        ledger_total(s.remove(i)) == ledger_total(s) - spans_total(s[i].1.pages@),
    decreases s.len(),
{
    if i == s.len() - 1 {
        assert(s.remove(i) =~= s.drop_last());
    } else {
        lemma_ledger_total_remove(s.drop_last(), i);
        assert(s.remove(i).drop_last() =~= s.drop_last().remove(i));
        assert(s.remove(i).last() == s.last());
    }
}

/// Any one entry's pages total at most the ledger total.
pub proof fn lemma_entry_le_ledger_total(s: Seq<(u64, DomainResources)>, i: int)
    requires
        0 <= i < s.len(),
    ensures
        spans_total(s[i].1.pages@) <= ledger_total(s),
    decreases s.len(),
{
    if i == s.len() - 1 {
        lemma_ledger_total_nonneg(s.drop_last());
    } else {
        lemma_entry_le_ledger_total(s.drop_last(), i);
        assert(s.drop_last()[i] == s[i]);
        lemma_spans_total_nonneg(s.last().1.pages@);
    }
}

/// A domain's recorded pages total at most the whole ledger's total.
pub proof fn lemma_pages_of_le_total(l: ResourceLedger, d: u64)
    ensures
        spans_total(l.pages_of(d)) <= ledger_total(l.entries@),
        spans_total(l.pages_of(d)) >= 0,
{
    lemma_spans_total_nonneg(l.pages_of(d));
    if l.spec_contains(d) {
        let i = l.idx_of(d);
        assert(0 <= i < l.entries@.len() && l.entries@[i].0 == d);
        lemma_entry_le_ledger_total(l.entries@, i);
    } else {
        lemma_ledger_total_nonneg(l.entries@);
    }
}

/// In a ledger with distinct keys, an op whose only keyed changes are at
/// `d`'s entry leaves every other position untouched.
pub proof fn lemma_entries_eq_off_key_support(
    pre: Seq<(u64, DomainResources)>,
    post: Seq<(u64, DomainResources)>,
    d: u64,
    i: int,
)
    requires
        forall|x: int, y: int| 0 <= x < y < post.len() ==> post[x].0 != post[y].0,
        0 <= i < post.len(),
        post[i].0 == d,
        forall|k: int|
            0 <= k < post.len() && post[k].0 != d ==> #[trigger] post[k] == pre[k],
    ensures
        forall|k: int| 0 <= k < post.len() && k != i ==> #[trigger] post[k] == pre[k],
{
    assert forall|k: int| 0 <= k < post.len() && k != i implies #[trigger] post[k] == pre[k] by {
        if post[k].0 == d {
            if k < i {
                assert(post[k].0 != post[i].0);
            } else {
                assert(post[i].0 != post[k].0);
            }
        }
    }
}

/// An op that touches only domain `d`'s entry (and may append entries for
/// `d` at the back) leaves every other domain's view of the ledger alone.
pub proof fn lemma_pages_of_preserved(pre: ResourceLedger, post: ResourceLedger, d: u64, e: u64)
    requires
        pre.wf(),
        post.wf(),
        e != d,
        forall|k: int|
            0 <= k < post.entries@.len() && post.entries@[k].0 != d ==> #[trigger] post.entries@[k]
                == pre.entries@[k],
        forall|k: int|
            pre.entries@.len() <= k < post.entries@.len() ==> post.entries@[k].0 == d,
        post.spec_contains(e) == pre.spec_contains(e),
    ensures
        post.pages_of(e) == pre.pages_of(e),
        post.spec_contains(e) ==> post.resources_of(e) == pre.resources_of(e),
{
    if post.spec_contains(e) {
        let j = post.idx_of(e);
        assert(0 <= j < post.entries@.len() && post.entries@[j].0 == e);
        assert(post.entries@[j] == pre.entries@[j]);
        assert(j < pre.entries@.len());
        assert(pre.entries@[j].0 == e);
        assert(pre.idx_of(e) == j) by {
            let j2 = pre.idx_of(e);
            assert(0 <= j2 < pre.entries@.len() && pre.entries@[j2].0 == e);
        }
    }
}

} // verus!
