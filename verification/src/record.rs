//! Interrupt accounting.
//!
//! The kernel keeps one counter per interrupt line; the report read from
//! the interrupts file renders each line as "irq: count". The file
//! round-trip itself is I/O of the filesystem layer; what is verified
//! here is the counter update and the exact text rendered.

use vstd::prelude::*;

verus! {

/// The decimal digits of `n`, most significant first.
pub open spec fn dec_digits(n: nat) -> Seq<u8>
    decreases n,
{
    if n < 10 {
        seq![(48 + n) as u8]
    } else {
        dec_digits(n / 10).push((48 + n % 10) as u8)
    }
}

/// Renders `n` in decimal.
pub fn usize_to_decimal(n: usize) -> (r: Vec<u8>)
    ensures
        r@ == dec_digits(n as nat),
    decreases n,
{
    if n < 10 {
        let mut r: Vec<u8> = Vec::new();
        r.push(48 + (n as u8));
        proof {
            assert(r@ =~= dec_digits(n as nat));
        }
        r
    } else {
        let mut r = usize_to_decimal(n / 10);
        r.push(48 + ((n % 10) as u8));
        r
    }
}

/// One line of the report: "irq: count" and a newline.
pub open spec fn render_line(irq: nat, count: nat) -> Seq<u8> {
    dec_digits(irq) + seq![58u8, 32u8] + dec_digits(count) + seq![10u8]
}

/// The whole report, one line per entry in table order.
pub open spec fn render_records(s: Seq<(usize, usize)>) -> Seq<u8>
    decreases s.len(),
{
    if s.len() == 0 {
        Seq::<u8>::empty()
    } else {
        render_records(s.drop_last()) + render_line(
            s.last().0 as nat,
            s.last().1 as nat,
        )
    }
}

/// Appends `src` to `dst`.
pub fn append_bytes(dst: &mut Vec<u8>, src: &Vec<u8>)
    ensures
        final(dst)@ == old(dst)@ + src@,
{
    let mut i: usize = 0;
    let n = src.len();
    while i < n
        invariant
            n == src@.len(),
            i <= n,
            dst@ == old(dst)@ + src@.take(i as int),
        decreases n - i,
    {
        dst.push(src[i]);
        i = i + 1;
        proof {
            assert(dst@ =~= old(dst)@ + src@.take(i as int));
        }
    }
    proof {
        assert(dst@ =~= old(dst)@ + src@);
    }
}

/// The per-line interrupt counters, one entry per line.
pub struct InterruptRecord {
    pub entries: Vec<(usize, usize)>,
}

impl InterruptRecord {
    /// Interrupt lines are pairwise distinct.
    pub open spec fn wf(self) -> bool {
        forall|i: int, j: int|
            0 <= i < j < self.entries@.len() ==> self.entries@[i].0 != self.entries@[j].0
    }

    pub open spec fn spec_contains(self, irq: usize) -> bool {
        exists|i: int| 0 <= i < self.entries@.len() && self.entries@[i].0 == irq
    }

    pub open spec fn idx_of(self, irq: usize) -> int {
        choose|i: int| 0 <= i < self.entries@.len() && self.entries@[i].0 == irq
    }

    pub fn new() -> (r: InterruptRecord)
        ensures
            r.wf(),
            r.entries@.len() == 0,
    {
        InterruptRecord { entries: Vec::new() }
    }
}

/// Counts one more interrupt on line `irq`: the matching counter is
/// incremented, or a fresh line is added with count one.
pub fn write_interrupt_record(rec: &mut InterruptRecord, irq: usize)
    requires
        old(rec).wf(),
        old(rec).spec_contains(irq) ==> old(rec).entries@[old(rec).idx_of(irq)].1 < usize::MAX,
    ensures
        final(rec).wf(),
        final(rec).spec_contains(irq),
        old(rec).spec_contains(irq) ==> {
            &&& final(rec).entries@.len() == old(rec).entries@.len()
            &&& final(rec).idx_of(irq) == old(rec).idx_of(irq)
            &&& final(rec).entries@[final(rec).idx_of(irq)].1 == old(rec).entries@[old(
                rec,
            ).idx_of(irq)].1 + 1
            &&& forall|k: int|
                0 <= k < old(rec).entries@.len() && k != old(rec).idx_of(irq)
                    ==> #[trigger] final(rec).entries@[k] == old(rec).entries@[k]
        },
        !old(rec).spec_contains(irq) ==> final(rec).entries@ == old(rec).entries@.push((irq, 1)),
{
    let mut i: usize = 0;
    let n = rec.entries.len();
    while i < n
        invariant
            n == rec.entries@.len(),
            i <= n,
            *rec == *old(rec),
            old(rec).wf(),
            old(rec).spec_contains(irq) ==> old(rec).entries@[old(rec).idx_of(irq)].1
                < usize::MAX,
            forall|k: int| 0 <= k < i ==> rec.entries@[k].0 != irq,
        decreases n - i,
    {
        if rec.entries[i].0 == irq {
            proof {
                assert(rec.wf());
                assert(rec.spec_contains(irq));
                assert(old(rec).idx_of(irq) == rec.idx_of(irq));
                assert(rec.idx_of(irq) == i) by {
                    let j = rec.idx_of(irq);
                    assert(0 <= j < rec.entries@.len() && rec.entries@[j].0 == irq);
                    if j < i {
                        assert(rec.entries@[j].0 != rec.entries@[i as int].0);
                    } else if j > i {
                        assert(rec.entries@[i as int].0 != rec.entries@[j].0);
                    }
                }
            }
            let ghost pre = rec.entries@;
            let entry = &mut rec.entries[i];
            entry.1 = entry.1 + 1;
            proof {
                assert(rec.wf()) by {
                    assert forall|x: int, y: int|
                        0 <= x < y < rec.entries@.len() implies rec.entries@[x].0
                        != rec.entries@[y].0 by {
                        assert(pre[x].0 == rec.entries@[x].0);
                        assert(pre[y].0 == rec.entries@[y].0);
                    }
                }
                assert(rec.idx_of(irq) == i) by {
                    let j = rec.idx_of(irq);
                    assert(0 <= j < rec.entries@.len() && rec.entries@[j].0 == irq);
                    if j < i {
                        assert(rec.entries@[j].0 != rec.entries@[i as int].0);
                    } else if j > i {
                        assert(rec.entries@[i as int].0 != rec.entries@[j].0);
                    }
                }
            }
            return ;
        }
        i = i + 1;
    }
    let ghost pre = rec.entries@;
    rec.entries.push((irq, 1));
    proof {
        assert(rec.entries@[pre.len() as int].0 == irq);
        assert(rec.wf()) by {
            assert forall|x: int, y: int|
                0 <= x < y < rec.entries@.len() implies rec.entries@[x].0
                != rec.entries@[y].0 by {
                if y < pre.len() {
                    assert(rec.entries@[x] == pre[x]);
                    assert(rec.entries@[y] == pre[y]);
                } else {
                    assert(rec.entries@[x] == pre[x]);
                    assert(pre[x].0 != irq);
                }
            }
        }
    }
}

/// Renders the interrupt report: one "irq: count" line per counter, in
/// table order.
pub fn interrupts_info(rec: &InterruptRecord) -> (r: Vec<u8>)
    ensures
        r@ == render_records(rec.entries@),
{
    let mut out: Vec<u8> = Vec::new();
    let mut i: usize = 0;
    let n = rec.entries.len();
    proof {
        assert(rec.entries@.take(0) =~= Seq::<(usize, usize)>::empty());
    }
    while i < n
        invariant
            n == rec.entries@.len(),
            i <= n,
            out@ == render_records(rec.entries@.take(i as int)),
        decreases n - i,
    {
        let (irq, count) = rec.entries[i];
        let irq_text = usize_to_decimal(irq);
        append_bytes(&mut out, &irq_text);
        out.push(58);
        out.push(32);
        let count_text = usize_to_decimal(count);
        append_bytes(&mut out, &count_text);
        out.push(10);
        i = i + 1;
        proof {
            assert(rec.entries@.take(i as int).drop_last() =~= rec.entries@.take(i - 1));
            assert(rec.entries@.take(i as int).last() == rec.entries@[i - 1]);
            assert(out@ =~= render_records(rec.entries@.take(i - 1)) + render_line(
                rec.entries@[i - 1].0 as nat,
                rec.entries@[i - 1].1 as nat,
            ));
        }
    }
    proof {
        assert(rec.entries@.take(n as int) =~= rec.entries@);
    }
    out
}

} // verus!
