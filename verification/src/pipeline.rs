//! The batching and dispatch discipline. A load worker owns one bounded batch:
//! a record arriving on a full batch flushes the batch first, and whatever the
//! batch holds at shutdown is flushed by the drain. The dispatcher walks the
//! lines in order, parses each one, routes every record round-robin over the
//! workers, and turns every failed line into one skip diagnostic — a bad line
//! never stops the run and never reaches a worker.

use vstd::prelude::*;
use crate::parser::{Parser, ParsedRecord, RecordModel, ParseError, spec_parse_line};

verus! {

/// The models of a sequence of records.
pub open spec fn recs_view(v: Seq<ParsedRecord>) -> Seq<RecordModel> {
    v.map_values(|r: ParsedRecord| r@)
}

/// One step of the accumulation discipline: a record arriving on a full batch
/// flushes the batch, and the new record opens the next one.
pub open spec fn spec_push(batch: Seq<RecordModel>, capacity: nat, rec: RecordModel) -> (Seq<
    RecordModel,
>, Option<Seq<RecordModel>>) {
    if batch.len() == capacity {
        (seq![rec], Some(batch))
    } else {
        (batch.push(rec), None)
    }
}

/// A worker's batch state: the records received and not yet flushed, in
/// arrival order, never more than the capacity.
pub struct LoadWorker {
    pub batch: Vec<ParsedRecord>,
    pub capacity: usize,
}

impl LoadWorker {
    pub open spec fn wf(&self) -> bool {
        self.capacity >= 1 && self.batch@.len() <= self.capacity
    }

    pub fn new(capacity: usize) -> (w: LoadWorker)
        requires
            capacity >= 1,
        ensures
            w.wf(),
            w.capacity == capacity,
            w.batch@.len() == 0,
    {
        LoadWorker { batch: Vec::new(), capacity }
    }

    /// Accepts one record. When the record arrives on a full batch, that
    /// batch is handed back for one bulk insert, in arrival order, and the
    /// record opens the next batch; otherwise the record is appended.
    pub fn push(&mut self, rec: ParsedRecord) -> (flushed: Option<Vec<ParsedRecord>>)
        requires
            old(self).wf(),
        ensures
            final(self).wf(),
            final(self).capacity == old(self).capacity,
            ({
                let (b2, fl) = spec_push(
                    recs_view(old(self).batch@),
                    old(self).capacity as nat,
                    rec@,
                );
                &&& recs_view(final(self).batch@) == b2
                &&& match flushed {
                    Some(f) => fl == Some(recs_view(f@)),
                    None => fl is None,
                }
            }),
    {
        if self.batch.len() == self.capacity {
            let full = self.batch.split_off(0);
            self.batch.push(rec);
            proof {
                assert(full@ =~= old(self).batch@);
                assert(recs_view(self.batch@) =~= seq![rec@]);
            }
            Some(full)
        } else {
            self.batch.push(rec);
            proof {
                assert(recs_view(self.batch@) =~= recs_view(old(self).batch@).push(rec@));
            }
            None
        }
    }

    /// Flushes whatever the batch holds at shutdown; nothing when it is empty.
    pub fn drain(&mut self) -> (flushed: Option<Vec<ParsedRecord>>)
        requires
            old(self).wf(),
        ensures
            final(self).wf(),
            final(self).capacity == old(self).capacity,
            final(self).batch@.len() == 0,
            match flushed {
                Some(f) => f@ == old(self).batch@ && old(self).batch@.len() > 0,
                None => old(self).batch@.len() == 0,
            },
    {
        if self.batch.len() == 0 {
            None
        } else {
            let full = self.batch.split_off(0);
            proof {
                assert(full@ =~= old(self).batch@);
            }
            Some(full)
        }
    }
}

/// The batches a worker of capacity `cap` hands back while fed `recs` from
/// empty, and the records it still holds afterwards.
pub open spec fn spec_feed(cap: nat, recs: Seq<RecordModel>) -> (Seq<RecordModel>, Seq<
    Seq<RecordModel>,
>)
    decreases recs.len(),
{
    if recs.len() == 0 {
        (Seq::empty(), Seq::empty())
    } else {
        let (pending, flushes) = spec_feed(cap, recs.drop_last());
        let (p2, fl) = spec_push(pending, cap, recs.last());
        match fl {
            Some(f) => (p2, flushes.push(f)),
            None => (p2, flushes),
        }
    }
}

/// A worker fed no more records than its capacity holds them all and never
/// flushes.
pub proof fn lemma_feed_no_flush(cap: nat, recs: Seq<RecordModel>)
    requires
        recs.len() <= cap,
    ensures
        spec_feed(cap, recs) == (recs, Seq::<Seq<RecordModel>>::empty()),
    decreases recs.len(),
{
    if recs.len() > 0 {
        lemma_feed_no_flush(cap, recs.drop_last());
        assert(recs.drop_last().push(recs.last()) =~= recs);
    } else {
        assert(recs =~= Seq::<RecordModel>::empty());
    }
}

/// With capacity C, a worker fed exactly C+1 records flushes exactly once,
/// with the first C records in arrival order, and still holds the last
/// record, which only the drain hands back.
pub proof fn lemma_batch_boundary(cap: nat, recs: Seq<RecordModel>)
    requires
        cap >= 1,
        recs.len() == cap + 1,
    ensures
        spec_feed(cap, recs) == (seq![recs.last()], seq![recs.take(cap as int)]),
{
    lemma_feed_no_flush(cap, recs.drop_last());
    assert(recs.drop_last() =~= recs.take(cap as int));
    assert(Seq::<Seq<RecordModel>>::empty().push(recs.take(cap as int)) =~= seq![
        recs.take(cap as int),
    ]);
}

/// Round-robin selection of the worker that receives each record.
pub struct Dispatcher {
    pub next: usize,
    pub workers: usize,
}

impl Dispatcher {
    pub open spec fn wf(&self) -> bool {
        self.workers >= 1 && self.next < self.workers
    }

    pub fn new(workers: usize) -> (d: Dispatcher)
        requires
            workers >= 1,
        ensures
            d.wf(),
            d.workers == workers,
            d.next == 0,
    {
        Dispatcher { next: 0, workers }
    }

    /// The worker index the next record goes to; the selection then moves one
    /// worker on, wrapping past the last.
    pub fn route(&mut self) -> (i: usize)
        requires
            old(self).wf(),
        ensures
            final(self).wf(),
            final(self).workers == old(self).workers,
            i == old(self).next,
            final(self).next == if old(self).next + 1 == old(self).workers {
                0usize
            } else {
                (old(self).next + 1) as usize
            },
    {
        let i = self.next;
        self.next = if self.next + 1 == self.workers {
            0
        } else {
            self.next + 1
        };
        i
    }
}

/// What dispatching the lines from `i` on yields, starting the round-robin at
/// `next`: every line parsed in order; each record delivered to one worker;
/// each failed line turned into one diagnostic with its 1-based ordinal.
pub open spec fn spec_dispatch_from(lines: Seq<Vec<u8>>, i: int, next: int, workers: int) -> (Seq<
    (int, RecordModel),
>, Seq<(int, ParseError)>)
    decreases lines.len() - i,
{
    if i < 0 || i >= lines.len() {
        (Seq::empty(), Seq::empty())
    } else {
        let next2 = if next + 1 == workers {
            0
        } else {
            next + 1
        };
        match spec_parse_line(lines[i]@) {
            Ok(rec) => {
                let (ds, ss) = spec_dispatch_from(lines, i + 1, next2, workers);
                (seq![(next, rec)] + ds, ss)
            },
            Err(err) => {
                let (ds, ss) = spec_dispatch_from(lines, i + 1, next, workers);
                (ds, seq![(i + 1, err)] + ss)
            },
        }
    }
}

fn dispatch_from(parser: &Parser, lines: &Vec<Vec<u8>>, i: usize, next: usize, workers: usize) -> (r:
    (Vec<(usize, ParsedRecord)>, Vec<(usize, ParseError)>))
    requires
        workers >= 1,
        next < workers,
        i <= lines@.len(),
    ensures
        ({
            let (ds, ss) = spec_dispatch_from(lines@, i as int, next as int, workers as int);
            &&& r.0@.len() == ds.len()
            &&& forall|x: int|
                0 <= x < ds.len() ==> r.0@[x].0 as int == ds[x].0 && r.0@[x].1@ == ds[x].1
            &&& r.1@.len() == ss.len()
            &&& forall|x: int|
                0 <= x < ss.len() ==> r.1@[x].0 as int == ss[x].0 && r.1@[x].1 == ss[x].1
        }),
    decreases lines@.len() - i,
{
    if i >= lines.len() {
        (Vec::new(), Vec::new())
    } else {
        let line = &lines[i];
        let next2 = if next + 1 == workers {
            0
        } else {
            next + 1
        };
        match parser.parse_line(line.as_slice()) {
            Ok(rec) => {
                let (mut ds, ss) = dispatch_from(parser, lines, i + 1, next2, workers);
                let mut out: Vec<(usize, ParsedRecord)> = Vec::new();
                out.push((next, rec));
                out.append(&mut ds);
                (out, ss)
            },
            Err(err) => {
                let (ds, mut ss) = dispatch_from(parser, lines, i + 1, next, workers);
                let mut out: Vec<(usize, ParseError)> = Vec::new();
                out.push((i + 1, err));
                out.append(&mut ss);
                (ds, out)
            },
        }
    }
}

/// Parses every line in order and routes the records round-robin over
/// `workers` workers. Yields the deliveries — worker index and record, one
/// for each line that parses — and the skips — 1-based line ordinal and
/// error, one for each line that does not. No record is dropped or
/// duplicated, and a failed line never reaches a worker.
pub fn dispatch_lines(parser: &Parser, lines: &Vec<Vec<u8>>, workers: usize) -> (r: (Vec<
    (usize, ParsedRecord),
>, Vec<(usize, ParseError)>))
    requires
        workers >= 1,
    ensures
        ({
            let (ds, ss) = spec_dispatch_from(lines@, 0, 0, workers as int);
            &&& r.0@.len() == ds.len()
            &&& forall|x: int|
                0 <= x < ds.len() ==> r.0@[x].0 as int == ds[x].0 && r.0@[x].1@ == ds[x].1
            &&& r.1@.len() == ss.len()
            &&& forall|x: int|
                0 <= x < ss.len() ==> r.1@[x].0 as int == ss[x].0 && r.1@[x].1 == ss[x].1
        }),
{
    dispatch_from(parser, lines, 0, 0, workers)
}

/// Every line is accounted for exactly once: the deliveries and the skips of
/// a dispatch together number the lines, a delivery for each line whose parse
/// succeeds and a skip for each line whose parse fails.
pub proof fn lemma_dispatch_accounts_for_every_line(lines: Seq<Vec<u8>>, i: int, next: int, workers: int)
    requires
        0 <= i <= lines.len(),
    ensures
        ({
            let (ds, ss) = spec_dispatch_from(lines, i, next, workers);
            ds.len() + ss.len() == lines.len() - i
        }),
    decreases lines.len() - i,
{
    if i < lines.len() {
        let next2 = if next + 1 == workers {
            0
        } else {
            next + 1
        };
        match spec_parse_line(lines[i]@) {
            Ok(_) => lemma_dispatch_accounts_for_every_line(lines, i + 1, next2, workers),
            Err(_) => lemma_dispatch_accounts_for_every_line(lines, i + 1, next, workers),
        }
    }
}


/// Every delivery names a worker that exists: the round-robin selection never
/// routes a record outside the pool.
pub proof fn lemma_dispatch_stays_in_pool(lines: Seq<Vec<u8>>, i: int, next: int, workers: int)
    requires
        0 <= next < workers,
    ensures
        ({
            let (ds, ss) = spec_dispatch_from(lines, i, next, workers);
            forall|x: int| 0 <= x < ds.len() ==> 0 <= #[trigger] ds[x].0 < workers
        }),
    decreases lines.len() - i,
{
    if 0 <= i < lines.len() {
        let next2 = if next + 1 == workers {
            0
        } else {
            next + 1
        };
        match spec_parse_line(lines[i]@) {
            Ok(rec) => {
                lemma_dispatch_stays_in_pool(lines, i + 1, next2, workers);
                let (ds2, _) = spec_dispatch_from(lines, i + 1, next2, workers);
                let (ds, _) = spec_dispatch_from(lines, i, next, workers);
                assert(ds == seq![(next, rec)] + ds2);
                assert forall|x: int| 0 <= x < ds.len() implies 0 <= #[trigger] ds[x].0 < workers by {
                    if x > 0 {
                        assert(ds[x] == ds2[x - 1]);
                    }
                }
            },
            Err(_) => {
                lemma_dispatch_stays_in_pool(lines, i + 1, next, workers);
                let (ds2, _) = spec_dispatch_from(lines, i + 1, next, workers);
                let (ds, _) = spec_dispatch_from(lines, i, next, workers);
                assert(ds == ds2);
                assert forall|x: int| 0 <= x < ds.len() implies 0 <= #[trigger] ds[x].0 < workers by {
                    assert(ds[x] == ds2[x]);
                }
            },
        }
    } else {
        assert(spec_dispatch_from(lines, i, next, workers).0.len() == 0);
    }
}

} // verus!
