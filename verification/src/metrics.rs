//! Performance metrics around caller-supplied clock readings.
//!
//! Instants come in as plain milliseconds; nothing here reads a clock.

use vstd::prelude::*;
use crate::storage::str_to_string;
use crate::text::{dec_chars, digit_char, two_digits, u64_to_dec};

verus! {

/// The timing record of one named operation.  Copies made with
/// [`OperationMetric::clone`] carry the record and one level of
/// sub-operations.
#[derive(Debug)]
pub struct OperationMetric {
    pub name: String,
    pub start_time: Option<u64>,
    pub duration: Option<u64>,
    pub sub_operations: Vec<OperationMetric>,
}

/// What `format_duration` renders for a finished duration of `ms`
/// milliseconds: seconds to two places above one second, else whole
/// milliseconds.
pub open spec fn spec_duration_text(ms: int) -> Seq<char> {
    if ms > 1000 {
        let centi = ms / 10 + (ms % 10 + 5) / 10;
        dec_chars(centi / 100) + "."@ + seq![
            digit_char(centi % 100 / 10),
            digit_char(centi % 100 % 10),
        ] + "s"@
    } else {
        dec_chars(ms) + "ms"@
    }
}

impl OperationMetric {
    /// A metric that has not started.
    pub fn new(name: &str) -> (r: Self)
        ensures
            r.name@ == name@,
            r.start_time is None,
            r.duration is None,
            r.sub_operations@.len() == 0,
    {
        OperationMetric {
            name: str_to_string(name),
            start_time: None,
            duration: None,
            sub_operations: Vec::new(),
        }
    }

    /// Mark the operation as started at the caller's clock reading.
    pub fn start(&mut self, now: u64)
        ensures
            final(self).start_time == Some(now),
            final(self).duration == old(self).duration,
            final(self).name@ == old(self).name@,
            final(self).sub_operations@ == old(self).sub_operations@,
    {
        self.start_time = Some(now);
    }

    /// Mark the operation as finished at the caller's clock reading; does
    /// nothing when it never started.
    pub fn end(&mut self, now: u64)
        requires
            old(self).start_time matches Some(s) ==> s <= now,
        ensures
            final(self).name@ == old(self).name@,
            final(self).start_time == old(self).start_time,
            final(self).sub_operations@ == old(self).sub_operations@,
            match old(self).start_time {
                Some(s) => final(self).duration == Some((now - s) as u64),
                None => final(self).duration == old(self).duration,
            },
    {
        match self.start_time {
            Some(s) => {
                self.duration = Some(now - s);
            },
            None => {},
        }
    }

    /// Attach a finished sub-operation.
    pub fn add_sub_operation(&mut self, sub_op: OperationMetric)
        ensures
            final(self).sub_operations@ == old(self).sub_operations@.push(sub_op),
            final(self).name@ == old(self).name@,
            final(self).start_time == old(self).start_time,
            final(self).duration == old(self).duration,
    {
        self.sub_operations.push(sub_op);
    }

    /// A copy of the record without its sub-operations.
    pub fn copy_without_subs(&self) -> (r: Self)
        ensures
            r.name@ == self.name@,
            r.start_time == self.start_time,
            r.duration == self.duration,
            r.sub_operations@.len() == 0,
    {
        OperationMetric {
            name: self.name.clone(),
            start_time: self.start_time,
            duration: self.duration,
            sub_operations: Vec::new(),
        }
    }

    /// A copy of the record carrying one level of sub-operations; deeper
    /// nesting is not carried along.
    pub fn clone(&self) -> (r: Self)
        ensures
            r.name@ == self.name@,
            r.start_time == self.start_time,
            r.duration == self.duration,
            r.sub_operations@.len() == self.sub_operations@.len(),
            forall|i: int|
                0 <= i < r.sub_operations@.len() ==> {
                    &&& r.sub_operations@[i].name@ == self.sub_operations@[i].name@
                    &&& r.sub_operations@[i].start_time == self.sub_operations@[i].start_time
                    &&& r.sub_operations@[i].duration == self.sub_operations@[i].duration
                },
    {
        let n = self.sub_operations.len();
        let mut subs: Vec<OperationMetric> = Vec::new();
        let mut i: usize = 0;
        while i < n
            invariant
                0 <= i <= n,
                n == self.sub_operations@.len(),
                subs@.len() == i,
                forall|j: int|
                    0 <= j < i ==> {
                        &&& subs@[j].name@ == self.sub_operations@[j].name@
                        &&& subs@[j].start_time == self.sub_operations@[j].start_time
                        &&& subs@[j].duration == self.sub_operations@[j].duration
                    },
            decreases n - i,
        {
            subs.push(self.sub_operations[i].copy_without_subs());
            i = i + 1;
        }
        OperationMetric {
            name: self.name.clone(),
            start_time: self.start_time,
            duration: self.duration,
            sub_operations: subs,
        }
    }

    /// Render the duration: seconds to two places above one second, whole
    /// milliseconds otherwise, `pending` while unfinished.
    pub fn format_duration(&self) -> (r: String)
        ensures
            match self.duration {
                Some(ms) => r@ == spec_duration_text(ms as int),
                None => r@ == "pending"@,
            },
    {
        match self.duration {
            Some(ms) => {
                if ms > 1000 {
                    let centi = ms / 10 + (ms % 10 + 5) / 10;
                    let mut out = u64_to_dec(centi / 100);
                    out.append(".");
                    out.append(two_digits(centi % 100).as_str());
                    out.append("s");
                    proof {
                        assert(out@ =~= spec_duration_text(ms as int));
                    }
                    out
                } else {
                    let mut out = u64_to_dec(ms);
                    out.append("ms");
                    proof {
                        assert(out@ =~= spec_duration_text(ms as int));
                    }
                    out
                }
            },
            None => str_to_string("pending"),
        }
    }
}

/// Index of the first metric entry named `name`, if any.
pub open spec fn spec_find_metric(s: Seq<(String, OperationMetric)>, name: Seq<char>) -> Option<int>
    decreases s.len(),
{
    if s.len() == 0 {
        None
    } else if s[0].0@ == name {
        Some(0)
    } else {
        match spec_find_metric(s.drop_first(), name) {
            Some(j) => Some(j + 1),
            None => None,
        }
    }
}

/// Tracks operations by name from a caller-supplied clock.
pub struct PerformanceTracker {
    operations: Vec<(String, OperationMetric)>,
    start_time: u64,
}

impl PerformanceTracker {
    pub closed spec fn spec_operations(&self) -> Seq<(String, OperationMetric)> {
        self.operations@
    }

    pub closed spec fn spec_start_time(&self) -> u64 {
        self.start_time
    }

    /// Operation names stay unique.
    pub open spec fn wf(&self) -> bool {
        forall|i: int, j: int|
            0 <= i < j < self.spec_operations().len() ==> self.spec_operations()[i].0@
                != self.spec_operations()[j].0@
    }

    /// A tracker whose epoch is the caller's clock reading.
    pub fn new(now: u64) -> (r: Self)
        ensures
            r.wf(),
            r.spec_operations().len() == 0,
            r.spec_start_time() == now,
    {
        PerformanceTracker { operations: Vec::new(), start_time: now }
    }

    fn find_op(&self, name: &String) -> (r: Option<usize>)
        ensures
            match r {
                Some(i) => spec_find_metric(self.spec_operations(), name@) == Some(i as int) && i
                    < self.spec_operations().len(),
                None => spec_find_metric(self.spec_operations(), name@) == None::<int>,
            },
    {
        let n = self.operations.len();
        let mut i: usize = 0;
        while i < n
            invariant
                0 <= i <= n,
                n == self.operations@.len(),
                forall|j: int| 0 <= j < i ==> self.operations@[j].0@ != name@,
            decreases n - i,
        {
            if self.operations[i].0 == *name {
                proof {
                    lemma_find_metric_via(self.operations@, name@, i as int);
                }
                return Some(i);
            }
            i = i + 1;
        }
        proof {
            lemma_find_metric_via(self.operations@, name@, n as int);
        }
        None
    }

    /// Begin timing `name` at the caller's clock reading, replacing any
    /// earlier run of the same name.  Operations under every other name
    /// survive unchanged.
    pub fn start_operation(&mut self, name: &str, now: u64)
        requires
            old(self).wf(),
        ensures
            final(self).wf(),
            final(self).spec_start_time() == old(self).spec_start_time(),
            spec_find_metric(final(self).spec_operations(), name@) matches Some(j) && {
                &&& final(self).spec_operations()[j].1.start_time == Some(now)
                &&& final(self).spec_operations()[j].1.duration is None
                &&& final(self).spec_operations()[j].1.name@ == name@
                &&& final(self).spec_operations()[j].1.sub_operations@.len() == 0
            },
            final(self).spec_operations().len() <= old(self).spec_operations().len() + 1,
            forall|j: int|
                0 <= j < old(self).spec_operations().len()
                    && #[trigger] old(self).spec_operations()[j].0@ != name@
                    ==> exists|b: int|
                    0 <= b < final(self).spec_operations().len()
                        && #[trigger] final(self).spec_operations()[b] == old(
                        self,
                    ).spec_operations()[j],
    {
        let key = str_to_string(name);
        let mut op = OperationMetric::new(name);
        op.start(now);
        let ghost pre = self.operations@;
        let ghost mut removed_k: Option<int> = None;
        match self.find_op(&key) {
            Some(j) => {
                proof {
                    lemma_find_metric_index(pre, name@);
                }
                self.operations.remove(j);
                proof {
                    lemma_metric_remove_keeps_unique(pre, j as int);
                    removed_k = Some(j as int);
                }
            },
            None => {
                proof {
                    lemma_find_metric_index(pre, name@);
                }
            },
        }
        let ghost mid = self.operations@;
        proof {
            assert(forall|a: int| 0 <= a < mid.len() ==> mid[a].0@ != name@);
        }
        self.operations.push((key, op));
        proof {
            let s = self.operations@;
            assert(forall|a: int| 0 <= a < s.len() - 1 ==> s[a].0@ != name@);
            lemma_find_metric_via(s, name@, s.len() - 1);
            assert forall|j: int|
                0 <= j < pre.len() && #[trigger] pre[j].0@ != name@ implies
                exists|b: int| 0 <= b < s.len() && #[trigger] s[b] == pre[j] by {
                match removed_k {
                    Some(k) => {
                        assert(pre[k].0@ == name@);
                        lemma_metric_remove_keeps_entry(pre, k, j);
                        let b0 = choose|b: int|
                            0 <= b < mid.len() && #[trigger] mid[b] == pre[j];
                        assert(s[b0] == pre[j]);
                    },
                    None => {
                        assert(s[j] == pre[j]);
                    },
                }
            }
        }
    }

    /// Finish timing `name` at the caller's clock reading.  An unknown or
    /// never-started name changes nothing; otherwise only the named entry
    /// changes, and only its duration.
    pub fn end_operation(&mut self, name: &str, now: u64)
        requires
            old(self).wf(),
            match spec_find_metric(old(self).spec_operations(), name@) {
                Some(j) => match old(self).spec_operations()[j].1.start_time {
                    Some(s) => s <= now,
                    None => true,
                },
                None => true,
            },
        ensures
            final(self).wf(),
            final(self).spec_start_time() == old(self).spec_start_time(),
            final(self).spec_operations().len() == old(self).spec_operations().len(),
            match spec_find_metric(old(self).spec_operations(), name@) {
                Some(j) => match old(self).spec_operations()[j].1.start_time {
                    Some(s) => {
                        &&& spec_find_metric(final(self).spec_operations(), name@) matches Some(j2)
                            && {
                            let before = old(self).spec_operations()[j].1;
                            let after = final(self).spec_operations()[j2].1;
                            &&& after.duration == Some((now - s) as u64)
                            &&& after.name@ == before.name@
                            &&& after.start_time == before.start_time
                            &&& after.sub_operations@ == before.sub_operations@
                        }
                        &&& forall|a: int|
                            0 <= a < old(self).spec_operations().len()
                                && #[trigger] old(self).spec_operations()[a].0@ != name@
                                ==> exists|b: int|
                                0 <= b < final(self).spec_operations().len()
                                    && #[trigger] final(self).spec_operations()[b] == old(
                                    self,
                                ).spec_operations()[a]
                    },
                    None => final(self).spec_operations() == old(self).spec_operations(),
                },
                None => final(self).spec_operations() == old(self).spec_operations(),
            },
    {
        let key = str_to_string(name);
        let ghost pre = self.operations@;
        match self.find_op(&key) {
            Some(j) => {
                proof {
                    lemma_find_metric_index(pre, name@);
                }
                if self.operations[j].1.start_time.is_some() {
                    let mut entry = self.operations.remove(j);
                    proof {
                        lemma_metric_remove_keeps_unique(pre, j as int);
                    }
                    entry.1.end(now);
                    self.operations.push(entry);
                    proof {
                        let s = self.operations@;
                        assert(forall|a: int| 0 <= a < s.len() - 1 ==> s[a].0@ != name@);
                        lemma_find_metric_via(s, name@, s.len() - 1);
                        assert(s[s.len() - 1].0@ == name@);
                        assert forall|a: int|
                            0 <= a < pre.len() && #[trigger] pre[a].0@ != name@ implies
                            exists|b: int| 0 <= b < s.len() && #[trigger] s[b] == pre[a] by {
                            lemma_metric_remove_keeps_entry(pre, j as int, a);
                            let b0 = choose|b: int|
                                0 <= b < pre.remove(j as int).len() && #[trigger] pre.remove(
                                    j as int,
                                )[b] == pre[a];
                            assert(s[b0] == pre[a]);
                        }
                    }
                }
            },
            None => {},
        }
    }

    /// Attach a copy of a finished child operation under a parent; both
    /// must be known, or nothing changes.
    pub fn add_sub_operation(&mut self, parent: &str, child: &str)
        requires
            old(self).wf(),
        ensures
            final(self).wf(),
            final(self).spec_start_time() == old(self).spec_start_time(),
            final(self).spec_operations().len() == old(self).spec_operations().len(),
    {
        let parent_key = str_to_string(parent);
        let child_key = str_to_string(child);
        let child_copy = match self.find_op(&child_key) {
            Some(c) => Some(self.operations[c].1.clone()),
            None => None,
        };
        match (self.find_op(&parent_key), child_copy) {
            (Some(j), Some(copy)) => {
                let ghost pre = self.operations@;
                proof {
                    lemma_find_metric_index(pre, parent@);
                }
                let mut entry = self.operations.remove(j);
                proof {
                    lemma_metric_remove_keeps_unique(pre, j as int);
                }
                entry.1.add_sub_operation(copy);
                self.operations.push(entry);
                proof {
                    let s = self.operations@;
                    assert(forall|a: int| 0 <= a < s.len() - 1 ==> s[a].0@ != parent@);
                }
            },
            _ => {},
        }
    }

    /// A copy of the named operation's record, if one exists: same name,
    /// start and duration, with one level of sub-operations carried along.
    pub fn get_operation(&self, name: &str) -> (r: Option<OperationMetric>)
        ensures
            match spec_find_metric(self.spec_operations(), name@) {
                Some(j) => r matches Some(m) && {
                    let stored = self.spec_operations()[j].1;
                    &&& m.name@ == stored.name@
                    &&& m.start_time == stored.start_time
                    &&& m.duration == stored.duration
                    &&& m.sub_operations@.len() == stored.sub_operations@.len()
                },
                None => r is None,
            },
    {
        let key = str_to_string(name);
        match self.find_op(&key) {
            Some(j) => Some(self.operations[j].1.clone()),
            None => None,
        }
    }

    /// Copies of every operation's record, in held order.
    pub fn get_all_operations(&self) -> (r: Vec<OperationMetric>)
        ensures
            r@.len() == self.spec_operations().len(),
    {
        let n = self.operations.len();
        let mut out: Vec<OperationMetric> = Vec::new();
        let mut i: usize = 0;
        while i < n
            invariant
                0 <= i <= n,
                n == self.operations@.len(),
                out@.len() == i,
            decreases n - i,
        {
            out.push(self.operations[i].1.clone());
            i = i + 1;
        }
        out
    }

    /// Milliseconds since the tracker's epoch, by the caller's clock.
    pub fn total_elapsed(&self, now: u64) -> (r: u64)
        requires
            self.spec_start_time() <= now,
        ensures
            r == now - self.spec_start_time(),
    {
        now - self.start_time
    }

    /// The report header; each operation's line is rendered by
    /// [`OperationMetric::format_duration`] on a copy from
    /// [`PerformanceTracker::get_all_operations`].
    pub fn generate_report(&self, now: u64) -> (r: String)
        requires
            self.spec_start_time() <= now,
        ensures
            r@ == "Performance Report\n=================\nTotal time: "@ + spec_duration_text(
                (now - self.spec_start_time()) as int,
            ) + "\n\n"@,
    {
        let mut out = str_to_string("Performance Report\n=================\nTotal time: ");
        let elapsed = self.total_elapsed(now);
        let probe = OperationMetric {
            name: String::new(),
            start_time: None,
            duration: Some(elapsed),
            sub_operations: Vec::new(),
        };
        out.append(probe.format_duration().as_str());
        out.append("\n\n");
        proof {
            assert(out@ =~= "Performance Report\n=================\nTotal time: "@
                + spec_duration_text((now - self.spec_start_time()) as int) + "\n\n"@);
        }
        out
    }
}

proof fn lemma_find_metric_via(s: Seq<(String, OperationMetric)>, name: Seq<char>, i: int)
    requires
        0 <= i <= s.len(),
        forall|j: int| 0 <= j < i ==> s[j].0@ != name,
    ensures
        i < s.len() && s[i].0@ == name ==> spec_find_metric(s, name) == Some(i),
        i == s.len() ==> spec_find_metric(s, name) == None::<int>,
    decreases s.len(),
{
    if s.len() > 0 {
        if s[0].0@ == name {
        } else {
            if i > 0 {
                lemma_find_metric_via(s.drop_first(), name, i - 1);
            } else {
                lemma_find_metric_via(s.drop_first(), name, 0);
            }
        }
    }
}

proof fn lemma_find_metric_index(s: Seq<(String, OperationMetric)>, name: Seq<char>)
    ensures
        match spec_find_metric(s, name) {
            Some(j) => 0 <= j < s.len() && s[j].0@ == name,
            None => forall|a: int| 0 <= a < s.len() ==> s[a].0@ != name,
        },
    decreases s.len(),
{
    if s.len() > 0 && s[0].0@ != name {
        lemma_find_metric_index(s.drop_first(), name);
        match spec_find_metric(s.drop_first(), name) {
            Some(j) => {
                assert(s.drop_first()[j] == s[j + 1]);
            },
            None => {
                assert(forall|a: int| 1 <= a < s.len() ==> s[a] == s.drop_first()[a - 1]);
            },
        }
    }
}

proof fn lemma_metric_remove_keeps_entry(s: Seq<(String, OperationMetric)>, k: int, j: int)
    requires
        0 <= k < s.len(),
        0 <= j < s.len(),
        j != k,
    ensures
        exists|b: int| 0 <= b < s.remove(k).len() && #[trigger] s.remove(k)[b] == s[j],
{
    let t = s.remove(k);
    if j < k {
        assert(t[j] == s[j]);
    } else {
        assert(t[j - 1] == s[j]);
    }
}

proof fn lemma_metric_remove_keeps_unique(s: Seq<(String, OperationMetric)>, k: int)
    requires
        forall|i: int, j: int| 0 <= i < j < s.len() ==> s[i].0@ != s[j].0@,
        0 <= k < s.len(),
    ensures
        forall|i: int, j: int|
            0 <= i < j < s.remove(k).len() ==> s.remove(k)[i].0@ != s.remove(k)[j].0@,
        forall|a: int| 0 <= a < s.remove(k).len() ==> s.remove(k)[a].0@ != s[k].0@,
{
    let t = s.remove(k);
    assert forall|a: int, b: int| 0 <= a < b < t.len() implies t[a].0@ != t[b].0@ by {
        let a0 = if a < k { a } else { a + 1 };
        let b0 = if b < k { b } else { b + 1 };
        assert(t[a] == s[a0] && t[b] == s[b0]);
    }
    assert forall|a: int| 0 <= a < t.len() implies t[a].0@ != s[k].0@ by {
        let a0 = if a < k { a } else { a + 1 };
        assert(t[a] == s[a0]);
    }
}

} // verus!
