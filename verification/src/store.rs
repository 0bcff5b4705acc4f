//! The record store: quote records keyed by a unique identifier, stamped at
//! insertion with a strictly increasing creation stamp that fixes the listing
//! order, and carrying a version counter that grows by one per update.

use vstd::prelude::*;

verus! {

/// One stored quote record.
#[derive(Debug)]
pub struct QuoteRecord {
    /// Unique identifier, assigned at creation and immutable.
    pub id: u128,
    pub author: String,
    pub quote: String,
    /// Creation stamp: strictly increasing with insertion order.
    pub created_at: u64,
    /// Starts at 1; grows by exactly 1 on every successful update.
    pub version: u64,
}

impl QuoteRecord {
    /// A field-for-field copy.
    pub fn duplicate(&self) -> (r: QuoteRecord)
        ensures
            r == *self,
    {
        QuoteRecord {
            id: self.id,
            author: self.author.clone(),
            quote: self.quote.clone(),
            created_at: self.created_at,
            version: self.version,
        }
    }
}

/// Why an insertion was refused.
#[derive(Debug, PartialEq, Eq, Structural)]
pub enum StoreError {
    /// The drawn identifier is already present.
    IdInUse,
    /// The creation-stamp counter is spent.
    StampsExhausted,
}

/// Creation stamps grow strictly along the sequence.
pub open spec fn stamps_increasing(s: Seq<QuoteRecord>) -> bool {
    forall|i: int, j: int| 0 <= i < j < s.len() ==> s[i].created_at < s[j].created_at
}

/// No two records share an identifier.
pub open spec fn ids_unique(s: Seq<QuoteRecord>) -> bool {
    forall|i: int, j: int| 0 <= i < j < s.len() ==> s[i].id != s[j].id
}

/// Every version counter is at least 1.
pub open spec fn versions_positive(s: Seq<QuoteRecord>) -> bool {
    forall|i: int| 0 <= i < s.len() ==> s[i].version >= 1
}

/// Some record of `s` carries identifier `id`.
pub open spec fn has_id(s: Seq<QuoteRecord>, id: u128) -> bool {
    exists|i: int| 0 <= i < s.len() && s[i].id == id
}

/// The index of the record carrying `id`.
pub open spec fn index_of_id(s: Seq<QuoteRecord>, id: u128) -> int {
    choose|i: int| 0 <= i < s.len() && s[i].id == id
}

/// The record carrying `id`.
pub open spec fn record_of(s: Seq<QuoteRecord>, id: u128) -> QuoteRecord
    recommends
        has_id(s, id),
{
    s[index_of_id(s, id)]
}

/// `r` with new author and text and the version counter grown by one.
pub open spec fn updated_record(r: QuoteRecord, author: String, quote: String) -> QuoteRecord {
    QuoteRecord { id: r.id, author, quote, created_at: r.created_at, version: (r.version + 1) as u64 }
}

/// `s` with the record carrying `id` replaced as `updated_record` says;
/// `s` itself when no record carries `id`.
pub open spec fn update_by_id(
    s: Seq<QuoteRecord>,
    id: u128,
    author: String,
    quote: String,
) -> Seq<QuoteRecord> {
    if has_id(s, id) {
        s.update(index_of_id(s, id), updated_record(record_of(s, id), author, quote))
    } else {
        s
    }
}

/// `s` without the record carrying `id`; `s` itself when no record carries `id`.
pub open spec fn remove_by_id(s: Seq<QuoteRecord>, id: u128) -> Seq<QuoteRecord> {
    if has_id(s, id) {
        s.remove(index_of_id(s, id))
    } else {
        s
    }
}

/// The slice of `s` a range scan returns: up to `limit` records starting at
/// `offset`, empty when `offset` is at or past the end.
pub open spec fn page_of(s: Seq<QuoteRecord>, offset: int, limit: int) -> Seq<QuoteRecord> {
    if offset < 0 || limit < 0 || offset >= s.len() {
        Seq::empty()
    } else if offset + limit >= s.len() {
        s.subrange(offset, s.len() as int)
    } else {
        s.subrange(offset, offset + limit)
    }
}

/// In a sequence with unique identifiers, an index whose record carries `id`
/// is the one `index_of_id` picks.
pub proof fn lemma_found_index(s: Seq<QuoteRecord>, i: int, id: u128)
    requires
        ids_unique(s),
        0 <= i < s.len(),
        s[i].id == id,
    ensures
        has_id(s, id),
        index_of_id(s, id) == i,
        record_of(s, id) == s[i],
{
    assert(has_id(s, id));
    let k = index_of_id(s, id);
    assert(0 <= k < s.len() && s[k].id == id);
    if k != i {
        if k < i {
            assert(s[k].id != s[i].id);
        } else {
            assert(s[i].id != s[k].id);
        }
    }
}

/// Relies on uuid's `Uuid::new_v4` (read through `as_u128`): a freshly
/// drawn random identifier. The draw is random; nothing is promised of the
/// value, and every caller handles an arbitrary result.
#[verifier::external_body]
fn fresh_id() -> (id: u128) {
    uuid::Uuid::new_v4().as_u128()
}

/// The record store.
pub struct QuoteStore {
    /// The records, in insertion order.
    pub records: Vec<QuoteRecord>,
    /// The creation stamp the next inserted record receives.
    pub next_stamp: u64,
}

impl View for QuoteStore {
    type V = Seq<QuoteRecord>;

    open spec fn view(&self) -> Seq<QuoteRecord> {
        self.records@
    }
}

impl QuoteStore {
    /// The store's invariant.
    pub open spec fn wf(&self) -> bool {
        &&& stamps_increasing(self@)
        &&& ids_unique(self@)
        &&& versions_positive(self@)
        &&& forall|i: int| 0 <= i < self@.len() ==> #[trigger] self@[i].created_at < self.next_stamp
    }

    /// An empty store.
    pub fn new() -> (s: Self)
        ensures
            s@ == Seq::<QuoteRecord>::empty(),
            s.next_stamp == 0,
            s.wf(),
    {
        QuoteStore { records: Vec::new(), next_stamp: 0 }
    }

    /// Whether some record carries `id`.
    pub fn contains_id(&self, id: u128) -> (b: bool)
        ensures
            b == has_id(self@, id),
    {
        match self.find_index(id) {
            Some(_) => true,
            None => false,
        }
    }

    /// The index of the record carrying `id`, if any.
    fn find_index(&self, id: u128) -> (r: Option<usize>)
        ensures
            match r {
                Some(i) => 0 <= i < self@.len() && self@[i as int].id == id && has_id(self@, id),
                None => !has_id(self@, id),
            },
    {
        let n = self.records.len();
        let mut i: usize = 0;
        while i < n
            invariant
                0 <= i <= n,
                n == self@.len(),
                forall|j: int| 0 <= j < i ==> self@[j].id != id,
            decreases n - i,
        {
            if self.records[i].id == id {
                return Some(i);
            }
            i += 1;
        }
        None
    }

    /// Inserts a record under the given identifier with version 1 and the
    /// next creation stamp. Refused exactly when the identifier is already
    /// present or the stamp counter is spent.
    pub fn insert_with_id(&mut self, id: u128, author: String, quote: String) -> (r: Result<
        QuoteRecord,
        StoreError,
    >)
        requires
            old(self).wf(),
        ensures
            final(self).wf(),
            has_id(old(self)@, id) ==> r == Err::<QuoteRecord, StoreError>(StoreError::IdInUse)
                && *final(self) == *old(self),
            !has_id(old(self)@, id) && old(self).next_stamp == u64::MAX ==> r == Err::<
                QuoteRecord,
                StoreError,
            >(StoreError::StampsExhausted) && *final(self) == *old(self),
            !has_id(old(self)@, id) && old(self).next_stamp < u64::MAX ==> {
                let rec = QuoteRecord {
                    id,
                    author,
                    quote,
                    created_at: old(self).next_stamp,
                    version: 1,
                };
                &&& r == Ok::<QuoteRecord, StoreError>(rec)
                &&& final(self)@ == old(self)@.push(rec)
                &&& final(self).next_stamp == old(self).next_stamp + 1
            },
    {
        if self.contains_id(id) {
            return Err(StoreError::IdInUse);
        }
        if self.next_stamp == u64::MAX {
            return Err(StoreError::StampsExhausted);
        }
        let rec = QuoteRecord {
            id,
            author,
            quote,
            created_at: self.next_stamp,
            version: 1,
        };
        let out = rec.duplicate();
        self.records.push(rec);
        self.next_stamp = self.next_stamp + 1;
        Ok(out)
    }

    /// Inserts a new record under a freshly drawn random identifier.
    /// Whatever identifier comes back from the draw: on success the record
    /// is appended with version 1 and the next creation stamp, under an
    /// identifier no earlier record carries; on the vanishingly unlikely
    /// identifier collision (or a spent stamp counter) nothing changes.
    /// On an empty store no draw can collide, so success is owed there.
    pub fn create(&mut self, author: String, quote: String) -> (r: Result<QuoteRecord, StoreError>)
        requires
            old(self).wf(),
        ensures
            final(self).wf(),
            old(self)@.len() == 0 && old(self).next_stamp < u64::MAX ==> r is Ok,
            r matches Ok(rec) ==> {
                &&& rec.author == author
                &&& rec.quote == quote
                &&& rec.version == 1
                &&& rec.created_at == old(self).next_stamp
                &&& !has_id(old(self)@, rec.id)
                &&& final(self)@ == old(self)@.push(rec)
                &&& final(self).next_stamp == old(self).next_stamp + 1
            },
            r is Err ==> *final(self) == *old(self),
            old(self).next_stamp < u64::MAX && r is Err ==> r == Err::<QuoteRecord, StoreError>(
                StoreError::IdInUse,
            ),
    {
        let id = fresh_id();
        self.insert_with_id(id, author, quote)
    }

    /// A copy of the record carrying `id`, if any.
    pub fn get(&self, id: u128) -> (r: Option<QuoteRecord>)
        requires
            self.wf(),
        ensures
            has_id(self@, id) ==> r == Some(record_of(self@, id)),
            !has_id(self@, id) ==> r is None,
    {
        match self.find_index(id) {
            Some(i) => {
                proof {
                    lemma_found_index(self@, i as int, id);
                }
                Some(self.records[i].duplicate())
            },
            None => None,
        }
    }

    /// Removes and returns the record carrying `id`, if any.
    pub fn delete(&mut self, id: u128) -> (r: Option<QuoteRecord>)
        requires
            old(self).wf(),
        ensures
            final(self).wf(),
            final(self)@ == remove_by_id(old(self)@, id),
            final(self).next_stamp == old(self).next_stamp,
            has_id(old(self)@, id) ==> r == Some(record_of(old(self)@, id)),
            !has_id(old(self)@, id) ==> r is None && *final(self) == *old(self),
    {
        match self.find_index(id) {
            Some(i) => {
                proof {
                    lemma_found_index(self@, i as int, id);
                    self@.remove_ensures(i as int);
                }
                let rec = self.records.remove(i);
                Some(rec)
            },
            None => None,
        }
    }

    /// Replaces author and text of the record carrying `id` and grows its
    /// version by exactly one; misses when no record carries `id`.
    pub fn update(&mut self, id: u128, author: String, quote: String) -> (r: Option<QuoteRecord>)
        requires
            old(self).wf(),
            has_id(old(self)@, id) ==> record_of(old(self)@, id).version < u64::MAX,
        ensures
            final(self).wf(),
            final(self)@ == update_by_id(old(self)@, id, author, quote),
            final(self).next_stamp == old(self).next_stamp,
            has_id(old(self)@, id) ==> r == Some(
                updated_record(record_of(old(self)@, id), author, quote),
            ),
            !has_id(old(self)@, id) ==> r is None && *final(self) == *old(self),
    {
        match self.find_index(id) {
            Some(i) => {
                proof {
                    lemma_found_index(self@, i as int, id);
                }
                let old_rec = self.records.remove(i);
                let new_rec = QuoteRecord {
                    id: old_rec.id,
                    author,
                    quote,
                    created_at: old_rec.created_at,
                    version: old_rec.version + 1,
                };
                let out = new_rec.duplicate();
                self.records.insert(i, new_rec);
                proof {
                    assert(self@ =~= update_by_id(old(self)@, id, author, quote));
                }
                Some(out)
            },
            None => None,
        }
    }

    /// The number of records.
    pub fn count(&self) -> (n: usize)
        ensures
            n == self@.len(),
    {
        self.records.len()
    }

    /// Copies of up to `limit` records starting at `offset`, in stored
    /// (i.e. creation) order.
    pub fn scan(&self, offset: usize, limit: usize) -> (r: Vec<QuoteRecord>)
        ensures
            r@ == page_of(self@, offset as int, limit as int),
    {
        let mut out: Vec<QuoteRecord> = Vec::new();
        let n = self.records.len();
        if offset >= n {
            proof {
                assert(out@ =~= page_of(self@, offset as int, limit as int));
            }
            return out;
        }
        let end: usize = if limit > n - offset {
            n
        } else {
            offset + limit
        };
        let mut i: usize = offset;
        while i < end
            invariant
                offset <= i <= end <= n,
                n == self@.len(),
                out@ == self@.subrange(offset as int, i as int),
            decreases end - i,
        {
            out.push(self.records[i].duplicate());
            proof {
                assert(out@ =~= self@.subrange(offset as int, i + 1));
            }
            i += 1;
        }
        proof {
            assert(out@ =~= page_of(self@, offset as int, limit as int));
        }
        out
    }

    /// Deletes every record. The stamp counter keeps its value, so listing
    /// order stays strict across a reset.
    pub fn reset(&mut self)
        ensures
            final(self).wf(),
            final(self)@ == Seq::<QuoteRecord>::empty(),
            final(self).next_stamp == old(self).next_stamp,
    {
        self.records.clear();
    }
}

/// Scanning the whole store from the start returns every record, in strictly
/// increasing `created_at` order, which is insertion order.
pub proof fn lemma_scan_all_insertion_order(s: &QuoteStore)
    requires
        s.wf(),
    ensures
        page_of(s@, 0, s@.len() as int) == s@,
        forall|i: int, j: int| 0 <= i < j < s@.len() ==> s@[i].created_at < s@[j].created_at,
{
    assert(page_of(s@, 0, s@.len() as int) =~= s@);
}

/// How a sequence of edits, applied one by one to the record carrying `id`,
/// rewrites the store contents.
pub open spec fn apply_updates(
    s: Seq<QuoteRecord>,
    id: u128,
    edits: Seq<(String, String)>,
) -> Seq<QuoteRecord>
    decreases edits.len(),
{
    if edits.len() == 0 {
        s
    } else {
        apply_updates(update_by_id(s, id, edits[0].0, edits[0].1), id, edits.drop_first())
    }
}

/// Every update grows the version counter of the edited record by exactly
/// one and never shrinks it: after `edits.len()` successful updates the
/// version has grown by exactly that count. Starting from a fresh record
/// (version 1), the version after N updates is 1 + N.
pub proof fn lemma_version_counts_updates(s: Seq<QuoteRecord>, id: u128, edits: Seq<(String, String)>)
    requires
        ids_unique(s),
        has_id(s, id),
        record_of(s, id).version + edits.len() <= u64::MAX,
    ensures
        ids_unique(apply_updates(s, id, edits)),
        has_id(apply_updates(s, id, edits), id),
        record_of(apply_updates(s, id, edits), id).version == record_of(s, id).version
            + edits.len(),
    decreases edits.len(),
{
    if edits.len() == 0 {
    } else {
        let k = index_of_id(s, id);
        let s1 = update_by_id(s, id, edits[0].0, edits[0].1);
        assert(s1 == s.update(k, updated_record(record_of(s, id), edits[0].0, edits[0].1)));
        assert forall|i: int, j: int| 0 <= i < j < s1.len() implies s1[i].id != s1[j].id by {
            assert(s[i].id != s[j].id);
        }
        lemma_found_index(s1, k, id);
        lemma_version_counts_updates(s1, id, edits.drop_first());
    }
}

} // verus!
