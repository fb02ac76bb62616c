//! The append-only store of file revisions, kept in memory.
//!
//! Revision IDs are assigned in order of appending, starting at 1, and the
//! revisions of each file are numbered 1, 2, ... without gaps.

use vstd::prelude::*;
use crate::revision::{FetchDirection, FieldGroup, FileRevisionModel, RevisionView};

verus! {

/// What a change asks of the pages that show the file.
#[derive(Clone, Copy, Debug, PartialEq, Eq, Structural)]
pub enum OutdateKind {
    /// The page's content changed.
    Edit,
    /// Something now exists on the page where nothing did.
    Displace,
}

/// A page whose cached renderings must be outdated.
#[derive(Clone, Copy, Debug, PartialEq, Eq, Structural)]
pub struct PageOutdate {
    pub kind: OutdateKind,
    pub site_id: i64,
    pub page_id: i64,
}

/// Selects the revisions of one file.
pub open spec fn of_file(site_id: i64, file_id: i64) -> spec_fn(RevisionView) -> bool {
    |r: RevisionView| r.site_id == site_id && r.file_id == file_id
}

/// The anchor of a range scan, with a negative number standing for the latest.
pub open spec fn range_anchor(revision_number: i32) -> i32 {
    if revision_number >= 0 {
        revision_number
    } else {
        i32::MAX
    }
}

/// Selects the revisions on the requested side of the anchor (inclusive).
pub open spec fn in_direction(anchor: i32, direction: FetchDirection) -> spec_fn(RevisionView) -> bool {
    |r: RevisionView|
        match direction {
            FetchDirection::Before => r.revision_number <= anchor,
            FetchDirection::After => r.revision_number >= anchor,
        }
}

/// At most `limit` items from the front of `s`.
pub open spec fn at_most<A>(s: Seq<A>, limit: u64) -> Seq<A> {
    if s.len() <= limit {
        s
    } else {
        s.take(limit as int)
    }
}

pub proof fn lemma_filter_push<A>(s: Seq<A>, x: A, p: spec_fn(A) -> bool)
    ensures
        s.push(x).filter(p) == (if p(x) {
            s.filter(p).push(x)
        } else {
            s.filter(p)
        }),
{
    reveal(Seq::filter);
    assert(s.push(x).drop_last() =~= s);
}

pub proof fn lemma_filter_step<A>(s: Seq<A>, p: spec_fn(A) -> bool, i: int)
    requires
        0 <= i < s.len(),
    ensures
        s.subrange(0, i + 1).filter(p) == (if p(s[i]) {
            s.subrange(0, i).filter(p).push(s[i])
        } else {
            s.subrange(0, i).filter(p)
        }),
{
    assert(s.subrange(0, i + 1) =~= s.subrange(0, i).push(s[i]));
    lemma_filter_push(s.subrange(0, i), s[i], p);
}

pub proof fn lemma_filter_split<A>(s: Seq<A>, p: spec_fn(A) -> bool, i: int)
    requires
        0 <= i <= s.len(),
    ensures
        s.filter(p) == s.subrange(0, i).filter(p) + s.subrange(i, s.len() as int).filter(p),
{
    assert(s =~= s.subrange(0, i) + s.subrange(i, s.len() as int));
    Seq::filter_distributes_over_add(s.subrange(0, i), s.subrange(i, s.len() as int), p);
}

/// A filter that keeps everything changes nothing.
pub proof fn lemma_filter_all<A>(s: Seq<A>, p: spec_fn(A) -> bool)
    requires
        forall|x: A| #[trigger] p(x),
    ensures
        s.filter(p) == s,
    decreases s.len(),
{
    reveal(Seq::filter);
    if s.len() > 0 {
        lemma_filter_all(s.drop_last(), p);
        assert(s.drop_last().push(s.last()) =~= s);
    }
}

/// Where two lists differ at most in their hidden sets, so do their
/// revisions of each file.
proof fn lemma_filter_hidden_only(s1: Seq<RevisionView>, s2: Seq<RevisionView>, site_id: i64, file_id: i64)
    requires
        s1.len() == s2.len(),
        forall|i: int| 0 <= i < s1.len() ==> #[trigger] s2[i] == s1[i].with_hidden(s2[i].hidden),
    ensures
        s2.filter(of_file(site_id, file_id)).len() == s1.filter(of_file(site_id, file_id)).len(),
        forall|j: int|
            0 <= j < s1.filter(of_file(site_id, file_id)).len() ==> #[trigger] s2.filter(
                of_file(site_id, file_id),
            )[j] == s1.filter(of_file(site_id, file_id))[j].with_hidden(
                s2.filter(of_file(site_id, file_id))[j].hidden,
            ),
    decreases s1.len(),
{
    reveal(Seq::filter);
    if s1.len() > 0 {
        let p = of_file(site_id, file_id);
        let t1 = s1.drop_last();
        let t2 = s2.drop_last();
        assert forall|i: int| 0 <= i < t1.len() implies #[trigger] t2[i] == t1[i].with_hidden(
            t2[i].hidden,
        ) by {
            assert(t2[i] == s2[i] && t1[i] == s1[i]);
        }
        lemma_filter_hidden_only(t1, t2, site_id, file_id);
        assert(s2.last() == s1.last().with_hidden(s2.last().hidden));
    }
}

/// The revisions of every file, in order of appending.
pub struct RevisionLedger {
    records: Vec<FileRevisionModel>,
    outdates: Vec<PageOutdate>,
}

impl RevisionLedger {
    /// Every revision, in order of appending.
    pub closed spec fn records(&self) -> Seq<RevisionView> {
        self.records@.map_values(|r: FileRevisionModel| r@)
    }

    /// The page outdates that the changes so far call for, oldest first.
    pub closed spec fn pending_outdates(&self) -> Seq<PageOutdate> {
        self.outdates@
    }

    /// The revisions of one file, oldest first.
    pub open spec fn history(&self, site_id: i64, file_id: i64) -> Seq<RevisionView> {
        self.records().filter(of_file(site_id, file_id))
    }

    /// IDs follow the order of appending, each file's revisions are
    /// numbered 1, 2, ... in order, and no file's latest revision hides
    /// anything.
    pub closed spec fn wf(&self) -> bool {
        &&& self.records().len() < i64::MAX
        &&& forall|i: int|
            0 <= i < self.records().len() ==> #[trigger] self.records()[i].revision_id == i + 1
        &&& forall|site_id: i64, file_id: i64, j: int|
            0 <= j < self.history(site_id, file_id).len() ==> #[trigger] self.history(
                site_id,
                file_id,
            )[j].revision_number == j + 1
        &&& forall|site_id: i64, file_id: i64|
            #![trigger self.history(site_id, file_id)]
            self.history(site_id, file_id).len() > 0 ==> self.history(
                site_id,
                file_id,
            ).last().hidden.len() == 0
    }

    /// The latest revision of a file never has hidden field groups.
    pub proof fn lemma_latest_not_hidden(&self, site_id: i64, file_id: i64)
        requires
            self.wf(),
            self.history(site_id, file_id).len() > 0,
        ensures
            self.history(site_id, file_id).last().hidden.len() == 0,
    {
    }

    /// A revision of a file sits in the ledger at the index its ID gives.
    proof fn lemma_history_at_id(&self, site_id: i64, file_id: i64, j: int)
        requires
            forall|i: int|
                0 <= i < self.records().len() ==> #[trigger] self.records()[i].revision_id == i + 1,
            0 <= j < self.history(site_id, file_id).len(),
        ensures
            1 <= self.history(site_id, file_id)[j].revision_id <= self.records().len(),
            self.records()[self.history(site_id, file_id)[j].revision_id - 1] == self.history(
                site_id,
                file_id,
            )[j],
    {
        let x = self.history(site_id, file_id)[j];
        assert(self.history(site_id, file_id).contains(x));
        self.records().lemma_filter_contains_rev(of_file(site_id, file_id), x);
        let k = choose|k: int| 0 <= k < self.records().len() && self.records()[k] == x;
        assert(self.records()[k].revision_id == k + 1);
    }

    /// Whether another revision can be appended without running out of IDs.
    pub open spec fn has_room(&self) -> bool {
        self.records().len() + 1 < i64::MAX
    }

    /// The ID that the next appended revision gets.
    pub open spec fn next_id(&self) -> i64 {
        (self.records().len() + 1) as i64
    }

    /// The revisions of a file that a range scan returns, in ascending order
    /// of revision number.
    pub open spec fn range(
        &self,
        site_id: i64,
        file_id: i64,
        revision_number: i32,
        direction: FetchDirection,
        limit: u64,
    ) -> Seq<RevisionView> {
        at_most(
            self.history(site_id, file_id).filter(
                in_direction(range_anchor(revision_number), direction),
            ),
            limit,
        )
    }

    pub proof fn lemma_wf_numbers(&self, site_id: i64, file_id: i64, j: int)
        requires
            self.wf(),
            0 <= j < self.history(site_id, file_id).len(),
        ensures
            self.history(site_id, file_id)[j].revision_number == j + 1,
            self.history(site_id, file_id).len() <= i32::MAX,
    {
        let h = self.history(site_id, file_id);
        assert(h[h.len() - 1].revision_number == h.len());
    }

    proof fn lemma_wf_same_records(a: &Self, b: &Self)
        requires
            a.wf(),
            a.records() == b.records(),
        ensures
            b.wf(),
    {
        assert forall|site_id: i64, file_id: i64, j: int|
            0 <= j < b.history(site_id, file_id).len() implies #[trigger] b.history(
            site_id,
            file_id,
        )[j].revision_number == j + 1 by {
            assert(a.history(site_id, file_id)[j].revision_number == j + 1);
        }
        assert forall|site_id: i64, file_id: i64|
            b.history(site_id, file_id).len() > 0 implies #[trigger] b.history(
            site_id,
            file_id,
        ).last().hidden.len() == 0 by {
            assert(a.history(site_id, file_id).len() > 0);
        }
    }

    pub proof fn lemma_ids(&self, i: int)
        requires
            self.wf(),
            0 <= i < self.records().len(),
        ensures
            self.records()[i].revision_id == i + 1,
    {
    }

    /// An empty ledger.
    pub fn new() -> (r: RevisionLedger)
        ensures
            r.wf(),
            r.has_room(),
            r.records().len() == 0,
            r.pending_outdates().len() == 0,
            forall|site_id: i64, file_id: i64| r.history(site_id, file_id).len() == 0,
    {
        let r = RevisionLedger { records: Vec::new(), outdates: Vec::new() };
        assert(r.records() =~= Seq::<RevisionView>::empty());
        assert forall|site_id: i64, file_id: i64| r.history(site_id, file_id).len() == 0 by {
            r.records().lemma_filter_len(of_file(site_id, file_id));
        }
        r
    }

    /// The ID that the next appended revision gets.
    pub fn next_revision_id(&self) -> (r: i64)
        requires
            self.has_room(),
        ensures
            r == self.next_id(),
    {
        assert(self.records().len() == self.records@.len());
        self.records.len() as i64 + 1
    }

    /// The number of revisions of a file, and the index of its latest.
    fn locate(&self, site_id: i64, file_id: i64) -> (r: (usize, Option<usize>))
        ensures
            r.0 == self.history(site_id, file_id).len(),
            r.1 is None <==> r.0 == 0,
            r.1 matches Some(k) ==> k < self.records().len() && self.records()[k as int]
                == self.history(site_id, file_id).last(),
    {
        let ghost p = of_file(site_id, file_id);
        let ghost s = self.records();
        let mut count: usize = 0;
        let mut last: Option<usize> = None;
        let mut i: usize = 0;
        while i < self.records.len()
            invariant
                i <= self.records.len(),
                s == self.records(),
                p == of_file(site_id, file_id),
                count == s.subrange(0, i as int).filter(p).len(),
                last is None <==> count == 0,
                last matches Some(k) ==> k < i && s[k as int] == s.subrange(0, i as int).filter(
                    p,
                ).last(),
            decreases self.records.len() - i,
        {
            proof {
                lemma_filter_step(s, p, i as int);
            }
            assert(s[i as int] == self.records@[i as int]@);
            if self.records[i].site_id == site_id && self.records[i].file_id == file_id {
                count = count + 1;
                last = Some(i);
            }
            i = i + 1;
        }
        assert(s.subrange(0, i as int) =~= s);
        (count, last)
    }

    /// The latest revision of a file, if it has any.
    pub fn latest(&self, site_id: i64, file_id: i64) -> (r: Option<FileRevisionModel>)
        ensures
            r is None <==> self.history(site_id, file_id).len() == 0,
            r matches Some(m) ==> m@ == self.history(site_id, file_id).last(),
    {
        let (_, last) = self.locate(site_id, file_id);
        match last {
            Some(k) => {
                assert(self.records()[k as int] == self.records@[k as int]@);
                Some(self.records[k].duplicate())
            },
            None => None,
        }
    }

    /// The number of revisions of a file.
    pub fn count(&self, site_id: i64, file_id: i64) -> (r: usize)
        requires
            self.wf(),
        ensures
            r == self.history(site_id, file_id).len(),
            r <= i32::MAX,
    {
        let (count, _) = self.locate(site_id, file_id);
        if count > 0 {
            proof {
                self.lemma_wf_numbers(site_id, file_id, 0);
            }
        }
        count
    }

    /// The revision of a file with the given number, if there is one.
    pub fn get(&self, site_id: i64, file_id: i64, revision_number: i32) -> (r: Option<
        FileRevisionModel,
    >)
        ensures
            r is Some <==> 1 <= revision_number <= self.history(site_id, file_id).len(),
            r matches Some(m) ==> m@ == self.history(site_id, file_id)[revision_number - 1],
    {
        let ghost p = of_file(site_id, file_id);
        let ghost s = self.records();
        if revision_number < 1 {
            return None;
        }
        let wanted = revision_number as usize;
        let mut count: usize = 0;
        let mut i: usize = 0;
        while i < self.records.len()
            invariant
                i <= self.records.len(),
                s == self.records(),
                p == of_file(site_id, file_id),
                count == s.subrange(0, i as int).filter(p).len(),
                count < wanted,
                wanted == revision_number,
            decreases self.records.len() - i,
        {
            proof {
                lemma_filter_step(s, p, i as int);
            }
            assert(s[i as int] == self.records@[i as int]@);
            if self.records[i].site_id == site_id && self.records[i].file_id == file_id {
                count = count + 1;
                if count == wanted {
                    proof {
                        lemma_filter_split(s, p, i + 1);
                    }
                    return Some(self.records[i].duplicate());
                }
            }
            i = i + 1;
        }
        assert(s.subrange(0, i as int) =~= s);
        None
    }

    /// The revisions of a file on one side of an anchor, ascending by
    /// number, at most `limit` of them.
    pub fn range_scan(
        &self,
        site_id: i64,
        file_id: i64,
        revision_number: i32,
        direction: FetchDirection,
        limit: u64,
    ) -> (r: Vec<FileRevisionModel>)
        ensures
            r@.map_values(|m: FileRevisionModel| m@) == self.range(
                site_id,
                file_id,
                revision_number,
                direction,
                limit,
            ),
    {
        let anchor = if revision_number >= 0 {
            revision_number
        } else {
            i32::MAX
        };
        let ghost p = of_file(site_id, file_id);
        let ghost q = in_direction(anchor, direction);
        let ghost s = self.records();
        let mut out: Vec<FileRevisionModel> = Vec::new();
        let mut i: usize = 0;
        while i < self.records.len() && (out.len() as u64) < limit
            invariant
                i <= self.records.len(),
                s == self.records(),
                p == of_file(site_id, file_id),
                q == in_direction(anchor, direction),
                anchor == range_anchor(revision_number),
                out@.map_values(|m: FileRevisionModel| m@) == s.subrange(0, i as int).filter(
                    p,
                ).filter(q),
                out.len() <= limit,
            decreases self.records.len() - i,
        {
            proof {
                lemma_filter_step(s, p, i as int);
                lemma_filter_push(s.subrange(0, i as int).filter(p), s[i as int], q);
            }
            let ghost before = out@;
            assert(s[i as int] == self.records@[i as int]@);
            let rec = &self.records[i];
            let selected = rec.site_id == site_id && rec.file_id == file_id && match direction {
                FetchDirection::Before => rec.revision_number <= anchor,
                FetchDirection::After => rec.revision_number >= anchor,
            };
            if selected {
                out.push(rec.duplicate());
                assert(out@.map_values(|m: FileRevisionModel| m@) =~= before.map_values(
                    |m: FileRevisionModel| m@,
                ).push(rec@));
            }
            i = i + 1;
        }
        proof {
            let a = s.subrange(0, i as int);
            let b = s.subrange(i as int, s.len() as int);
            lemma_filter_split(s, p, i as int);
            Seq::filter_distributes_over_add(a.filter(p), b.filter(p), q);
            let all = s.filter(p).filter(q);
            let x = a.filter(p).filter(q);
            if i < s.len() {
                assert(x.len() == limit);
                assert(all.take(limit as int) =~= x);
                if all.len() <= limit {
                    assert(all =~= x);
                }
            } else {
                assert(b =~= Seq::<RevisionView>::empty());
                reveal(Seq::filter);
                assert(b.filter(p) =~= Seq::<RevisionView>::empty());
                assert(b.filter(p).filter(q) =~= Seq::<RevisionView>::empty());
                assert(all =~= x);
            }
        }
        out
    }

    /// Appends a revision that continues its file's numbering.
    pub(crate) fn append(&mut self, rec: FileRevisionModel)
        requires
            old(self).wf(),
            old(self).has_room(),
            rec.revision_id == old(self).next_id(),
            rec.revision_number == old(self).history(rec.site_id, rec.file_id).len() + 1,
            rec.hidden@.len() == 0,
        ensures
            final(self).wf(),
            final(self).records() == old(self).records().push(rec@),
            final(self).pending_outdates() == old(self).pending_outdates(),
    {
        let ghost old_records = self.records();
        let ghost v = rec@;
        self.records.push(rec);
        assert(self.records() =~= old_records.push(v));
        assert forall|site_id: i64, file_id: i64, j: int|
            0 <= j < self.history(site_id, file_id).len() implies #[trigger] self.history(
            site_id,
            file_id,
        )[j].revision_number == j + 1 by {
            lemma_filter_push(old_records, v, of_file(site_id, file_id));
            if j < old_records.filter(of_file(site_id, file_id)).len() {
                assert(old(self).history(site_id, file_id)[j].revision_number == j + 1);
            }
        }
        assert forall|site_id: i64, file_id: i64|
            self.history(site_id, file_id).len() > 0 implies #[trigger] self.history(
            site_id,
            file_id,
        ).last().hidden.len() == 0 by {
            lemma_filter_push(old_records, v, of_file(site_id, file_id));
            if !of_file(site_id, file_id)(v) {
                assert(old(self).history(site_id, file_id).len() > 0);
            }
        }
    }

    /// Records a page outdate that a change calls for.
    pub(crate) fn push_outdate(&mut self, outdate: PageOutdate)
        ensures
            final(self).records() == old(self).records(),
            old(self).wf() ==> final(self).wf(),
            final(self).has_room() == old(self).has_room(),
            final(self).pending_outdates() == old(self).pending_outdates().push(outdate),
    {
        self.outdates.push(outdate);
        proof {
            if old(self).wf() {
                Self::lemma_wf_same_records(old(self), self);
            }
        }
    }

    /// Hands over the pending page outdates, leaving none.
    pub fn take_outdates(&mut self) -> (r: Vec<PageOutdate>)
        ensures
            r@ == old(self).pending_outdates(),
            final(self).records() == old(self).records(),
            old(self).wf() ==> final(self).wf(),
            final(self).has_room() == old(self).has_room(),
            final(self).pending_outdates().len() == 0,
    {
        let mut r: Vec<PageOutdate> = Vec::new();
        r.append(&mut self.outdates);
        assert(r@ =~= old(self).pending_outdates());
        proof {
            if old(self).wf() {
                Self::lemma_wf_same_records(old(self), self);
            }
        }
        r
    }

    /// Replaces the hidden set of the revision with the given ID, if it
    /// belongs to the file.
    pub(crate) fn set_hidden(
        &mut self,
        revision_id: i64,
        site_id: i64,
        file_id: i64,
        hidden: Vec<FieldGroup>,
    ) -> (r: Option<FileRevisionModel>)
        requires
            old(self).wf(),
            old(self).history(site_id, file_id).len() > 0,
            revision_id != old(self).history(site_id, file_id).last().revision_id,
        ensures
            final(self).wf(),
            final(self).pending_outdates() == old(self).pending_outdates(),
            r is Some <==> (1 <= revision_id <= old(self).records().len() && of_file(site_id, file_id)(
                old(self).records()[revision_id - 1],
            )),
            r is Some ==> final(self).records() == old(self).records().update(
                revision_id - 1,
                old(self).records()[revision_id - 1].with_hidden(hidden@),
            ),
            r matches Some(m) ==> m@ == final(self).records()[revision_id - 1],
            r is None ==> final(self).records() == old(self).records(),
    {
        if revision_id < 1 || revision_id as u64 > self.records.len() as u64 {
            return None;
        }
        let index = (revision_id - 1) as usize;
        assert(self.records()[index as int] == self.records@[index as int]@);
        if self.records[index].site_id != site_id || self.records[index].file_id != file_id {
            return None;
        }
        let ghost old_records = self.records();
        let mut rec = self.records[index].duplicate();
        rec.hidden = hidden;
        let result = rec.duplicate();
        self.records.set(index, rec);
        assert(self.records() =~= old_records.update(
            index as int,
            old_records[index as int].with_hidden(result.hidden@),
        ));
        proof {
            let s2 = self.records();
            assert forall|i: int| 0 <= i < old_records.len() implies #[trigger] s2[i]
                == old_records[i].with_hidden(s2[i].hidden) by {}
            assert forall|site: i64, file: i64, j: int|
                0 <= j < self.history(site, file).len() implies #[trigger] self.history(
                site,
                file,
            )[j].revision_number == j + 1 by {
                lemma_filter_hidden_only(old_records, s2, site, file);
                assert(old(self).history(site, file)[j].revision_number == j + 1);
            }
            assert forall|i: int| 0 <= i < s2.len() implies #[trigger] s2[i].revision_id == i + 1 by {
                assert(old_records[i].revision_id == i + 1);
            }
            assert forall|site: i64, file: i64|
                self.history(site, file).len() > 0 implies #[trigger] self.history(
                site,
                file,
            ).last().hidden.len() == 0 by {
                lemma_filter_hidden_only(old_records, s2, site, file);
                let h1 = old(self).history(site, file);
                let h2 = self.history(site, file);
                let last = h1.len() - 1;
                assert(h2[last] == h1[last].with_hidden(h2[last].hidden));
                old(self).lemma_history_at_id(site, file, last);
                self.lemma_history_at_id(site, file, last);
                let k = h1[last].revision_id - 1;
                if k == index {
                    let n = old(self).history(site_id, file_id).len();
                    old(self).lemma_history_at_id(site_id, file_id, n - 1);
                }
                assert(old(self).history(site, file).len() > 0);
            }
        }
        Some(result)
    }
}

} // verus!
