//! The outbox: the durable record of the events that outside consumers must
//! receive, kept oldest first until a publisher has delivered each of them.
use vstd::prelude::*;

use crate::message::{Envelope, EnvelopeView};
use crate::responses::{BaseError, BaseErrorView};

verus! {

/// One event awaiting delivery.
#[derive(Debug, PartialEq, Eq)]
pub struct OutboxEntry {
    id: u64,
    aggregate_id: String,
    topic: String,
    payload: String,
    processed: bool,
    created_at: u64,
}

pub struct OutboxEntryView {
    pub id: u64,
    pub aggregate_id: Seq<char>,
    pub topic: Seq<char>,
    pub payload: Seq<char>,
    pub processed: bool,
    pub created_at: u64,
}

impl OutboxEntryView {
    /// The entry that records `event` under `id`, made at `created_at` and not
    /// yet processed.
    pub open spec fn of(event: EnvelopeView, id: u64, created_at: u64) -> OutboxEntryView {
        OutboxEntryView {
            id,
            aggregate_id: event.metadata.aggregate_id,
            topic: event.metadata.topic,
            payload: event.state,
            processed: false,
            created_at,
        }
    }

    /// Whether this entry carries what `event` says.
    pub open spec fn records(self, event: EnvelopeView) -> bool {
        &&& self.aggregate_id == event.metadata.aggregate_id
        &&& self.topic == event.metadata.topic
        &&& self.payload == event.state
    }

    pub open spec fn unprocessed(self) -> OutboxEntryView {
        OutboxEntryView { processed: false, ..self }
    }

    pub open spec fn delivered(self) -> OutboxEntryView {
        OutboxEntryView { processed: true, ..self }
    }
}

impl View for OutboxEntry {
    type V = OutboxEntryView;

    closed spec fn view(&self) -> OutboxEntryView {
        OutboxEntryView {
            id: self.id,
            aggregate_id: self.aggregate_id@,
            topic: self.topic@,
            payload: self.payload@,
            processed: self.processed,
            created_at: self.created_at,
        }
    }
}

impl Clone for OutboxEntry {
    fn clone(&self) -> (copy: OutboxEntry)
        ensures
            copy@ == self@,
    {
        OutboxEntry {
            id: self.id,
            aggregate_id: self.aggregate_id.clone(),
            topic: self.topic.clone(),
            payload: self.payload.clone(),
            processed: self.processed,
            created_at: self.created_at,
        }
    }
}

impl OutboxEntry {
    /// An entry that is not yet processed.
    pub fn new(id: u64, aggregate_id: String, topic: String, payload: String, created_at: u64) -> (entry:
        OutboxEntry)
        ensures
            entry@ == (OutboxEntryView {
                id,
                aggregate_id: aggregate_id@,
                topic: topic@,
                payload: payload@,
                processed: false,
                created_at,
            }),
    {
        OutboxEntry { id, aggregate_id, topic, payload, processed: false, created_at }
    }

    /// The entry that records `event`.
    pub fn of(event: &Envelope, id: u64, created_at: u64) -> (entry: OutboxEntry)
        ensures
            entry@ == OutboxEntryView::of(event@, id, created_at),
    {
        OutboxEntry {
            id,
            aggregate_id: event.aggregate_id().clone(),
            topic: event.topic().clone(),
            payload: event.payload().clone(),
            processed: false,
            created_at,
        }
    }

    pub fn id(&self) -> (id: u64)
        ensures
            id == self@.id,
    {
        self.id
    }

    pub fn aggregate_id(&self) -> (aggregate_id: &String)
        ensures
            aggregate_id@ == self@.aggregate_id,
    {
        &self.aggregate_id
    }

    pub fn topic(&self) -> (topic: &String)
        ensures
            topic@ == self@.topic,
    {
        &self.topic
    }

    pub fn payload(&self) -> (payload: &String)
        ensures
            payload@ == self@.payload,
    {
        &self.payload
    }

    pub fn processed(&self) -> (processed: bool)
        ensures
            processed == self@.processed,
    {
        self.processed
    }

    pub fn created_at(&self) -> (created_at: u64)
        ensures
            created_at == self@.created_at,
    {
        self.created_at
    }
}

/// The identifier that follows `last` for an entry made at `now`: the time
/// itself where that is larger than every identifier given out so far, and
/// else the one after `last`. At the largest number the identifiers stop.
pub open spec fn following(last: u64, now: u64) -> u64 {
    if now > last {
        now
    } else if last < u64::MAX {
        (last + 1) as u64
    } else {
        last
    }
}

/// Gives out the identifier for the next entry, `last` being the one given out
/// before and `now` the present time. Identifiers given out one after the other
/// grow, so that no two are the same, and none is smaller than the time at
/// which it was given out; only at the largest number do they stop growing, and
/// an entry that repeats one is refused when it is written.
pub fn next_identifier(last: u64, now: u64) -> (id: u64)
    ensures
        id == following(last, now),
        id >= last,
        id >= now,
        last < u64::MAX ==> id > last,
{
    if now > last {
        now
    } else if last < u64::MAX {
        last + 1
    } else {
        last
    }
}

/// The views of a sequence of entries, in the same order.
pub open spec fn entry_views(entries: Seq<OutboxEntry>) -> Seq<OutboxEntryView> {
    entries.map_values(|e: OutboxEntry| e@)
}

/// One of `entries` has the identifier `id`.
pub open spec fn names(entries: Seq<OutboxEntryView>, id: u64) -> bool {
    exists|k: int| 0 <= k < entries.len() && entries[k].id == id
}

/// A row of the store: an entry, and whether a publisher holds it at present.
pub struct OutboxRow {
    pub entry: OutboxEntryView,
    pub claimed: bool,
}

impl OutboxRow {
    /// A row can be fetched while it is neither processed nor claimed.
    pub open spec fn available(self) -> bool {
        !self.entry.processed && !self.claimed
    }
}

pub open spec fn is_available() -> spec_fn(OutboxRow) -> bool {
    |row: OutboxRow| row.available()
}

pub open spec fn entry_of() -> spec_fn(OutboxRow) -> OutboxEntryView {
    |row: OutboxRow| row.entry
}

/// No two rows have the same identifier.
pub open spec fn ids_distinct(rows: Seq<OutboxRow>) -> bool {
    forall|i: int, j: int| 0 <= i < j < rows.len() ==> rows[i].entry.id != rows[j].entry.id
}

/// The rows stand in the order of their creation times.
pub open spec fn oldest_first(rows: Seq<OutboxRow>) -> bool {
    forall|i: int, j: int|
        0 <= i <= j < rows.len() ==> rows[i].entry.created_at <= rows[j].entry.created_at
}

pub open spec fn well_formed(rows: Seq<OutboxRow>) -> bool {
    ids_distinct(rows) && oldest_first(rows)
}

pub open spec fn holds_id(rows: Seq<OutboxRow>, id: u64) -> bool {
    exists|i: int| 0 <= i < rows.len() && rows[i].entry.id == id
}

/// The number of rows that were not created after `created_at`: the place of a
/// new row with that creation time.
pub open spec fn slot(rows: Seq<OutboxRow>, created_at: u64) -> int
    decreases rows.len(),
{
    if rows.len() == 0 {
        0
    } else {
        slot(rows.drop_last(), created_at) + if rows.last().entry.created_at <= created_at {
            1int
        } else {
            0int
        }
    }
}

/// The row that a new entry becomes: unprocessed and unclaimed.
pub open spec fn fresh(entry: OutboxEntryView) -> OutboxRow {
    OutboxRow { entry: entry.unprocessed(), claimed: false }
}

/// The store after `entry` went in, behind every row that is not younger.
pub open spec fn inserted(rows: Seq<OutboxRow>, entry: OutboxEntryView) -> Seq<OutboxRow> {
    rows.insert(slot(rows, entry.created_at), fresh(entry))
}

/// The store after all of `batch` went in, one after the other, or `None` where
/// one of them met its own identifier.
pub open spec fn inserted_all(rows: Seq<OutboxRow>, batch: Seq<OutboxEntryView>) -> Option<
    Seq<OutboxRow>,
>
    decreases batch.len(),
{
    if batch.len() == 0 {
        Some(rows)
    } else if holds_id(rows, batch[0].id) {
        None
    } else {
        inserted_all(inserted(rows, batch[0]), batch.drop_first())
    }
}

/// The store after the entry `id` was marked: that entry is processed, nothing
/// else differs.
pub open spec fn marked(rows: Seq<OutboxRow>, id: u64) -> Seq<OutboxRow> {
    rows.map_values(
        |row: OutboxRow|
            if row.entry.id == id {
                OutboxRow { entry: row.entry.delivered(), claimed: row.claimed }
            } else {
                row
            },
    )
}

/// The store after the claim on the entry `id` was given up.
pub open spec fn released(rows: Seq<OutboxRow>, id: u64) -> Seq<OutboxRow> {
    rows.map_values(
        |row: OutboxRow|
            if row.entry.id == id {
                OutboxRow { entry: row.entry, claimed: false }
            } else {
                row
            },
    )
}

/// How many of the first `i` rows are available.
pub open spec fn rank(rows: Seq<OutboxRow>, i: int) -> nat {
    rows.take(i).filter(is_available()).len()
}

/// What a fetch of at most `limit` entries returns: the first `limit` available
/// entries, oldest first.
pub open spec fn fetched(rows: Seq<OutboxRow>, limit: nat) -> Seq<OutboxEntryView> {
    let available = rows.filter(is_available()).map_values(entry_of());
    if limit < available.len() {
        available.take(limit as int)
    } else {
        available
    }
}

/// The store after such a fetch: the rows it returned are claimed.
pub open spec fn after_fetch(rows: Seq<OutboxRow>, limit: nat) -> Seq<OutboxRow> {
    Seq::new(
        rows.len(),
        |i: int|
            if rows[i].available() && rank(rows, i) < limit {
                OutboxRow { entry: rows[i].entry, claimed: true }
            } else {
                rows[i]
            },
    )
}


/// In a store that is ordered by creation time, `slot` splits the rows: those in
/// front of it are not younger than `created_at`, those behind it are.
pub proof fn lemma_slot_splits(rows: Seq<OutboxRow>, created_at: u64)
    requires
        oldest_first(rows),
    ensures
        0 <= slot(rows, created_at) <= rows.len(),
        forall|j: int|
            0 <= j < slot(rows, created_at) ==> (#[trigger] rows[j]).entry.created_at <= created_at,
        forall|j: int|
            slot(rows, created_at) <= j < rows.len() ==> (#[trigger] rows[j]).entry.created_at
                > created_at,
    decreases rows.len(),
{
    if rows.len() > 0 {
        let front = rows.drop_last();
        assert forall|i: int, j: int| 0 <= i <= j < front.len() implies front[i].entry.created_at
            <= front[j].entry.created_at by {
            assert(front[i] == rows[i] && front[j] == rows[j]);
        }
        lemma_slot_splits(front, created_at);
        assert forall|j: int| 0 <= j < slot(rows, created_at) implies (#[trigger] rows[j]).entry.created_at
            <= created_at by {
            if j < front.len() {
                assert(front[j] == rows[j]);
                if j >= slot(front, created_at) {
                    assert(rows[j].entry.created_at <= rows.last().entry.created_at);
                }
            }
        }
        assert forall|j: int| slot(rows, created_at) <= j < rows.len() implies (
        #[trigger] rows[j]).entry.created_at > created_at by {
            if j < front.len() {
                assert(front[j] == rows[j]);
            }
        }
    }
}

/// Inserting an entry whose identifier is new keeps the store well formed and
/// adds exactly one row.
pub proof fn lemma_inserted_well_formed(rows: Seq<OutboxRow>, entry: OutboxEntryView)
    requires
        well_formed(rows),
        !holds_id(rows, entry.id),
    ensures
        well_formed(inserted(rows, entry)),
        inserted(rows, entry).len() == rows.len() + 1,
        holds_id(inserted(rows, entry), entry.id),
        forall|id: u64| holds_id(rows, id) ==> holds_id(inserted(rows, entry), id),
        forall|id: u64|
            holds_id(inserted(rows, entry), id) ==> id == entry.id || holds_id(rows, id),
        forall|row: OutboxRow|
            inserted(rows, entry).contains(row) <==> rows.contains(row) || row == fresh(entry),
{
    let at = slot(rows, entry.created_at);
    let after = inserted(rows, entry);
    lemma_slot_splits(rows, entry.created_at);
    assert forall|i: int, j: int| 0 <= i < j < after.len() implies after[i].entry.id
        != after[j].entry.id by {
        let a = if i < at { i } else { i - 1 };
        let b = if j < at { j } else { j - 1 };
        if i != at && j != at {
            assert(after[i] == rows[a] && after[j] == rows[b]);
        } else if i == at {
            assert(after[j] == rows[b]);
        } else {
            assert(after[i] == rows[a]);
        }
    }
    assert forall|i: int, j: int| 0 <= i <= j < after.len() implies after[i].entry.created_at
        <= after[j].entry.created_at by {
        let a = if i < at { i } else { i - 1 };
        let b = if j < at { j } else { j - 1 };
        if i != at && j != at {
            assert(after[i] == rows[a] && after[j] == rows[b]);
        } else if i == at && j != at {
            assert(after[j] == rows[b]);
        } else if j == at && i != at {
            assert(after[i] == rows[a]);
        }
    }
    assert(after[at].entry.id == entry.id);
    assert forall|id: u64| holds_id(rows, id) implies holds_id(after, id) by {
        let i = choose|i: int| 0 <= i < rows.len() && rows[i].entry.id == id;
        let k = if i < at { i } else { i + 1 };
        assert(after[k] == rows[i]);
    }
    assert forall|id: u64| holds_id(after, id) implies id == entry.id || holds_id(rows, id) by {
        let k = choose|k: int| 0 <= k < after.len() && after[k].entry.id == id;
        if k != at {
            let i = if k < at { k } else { k - 1 };
            assert(after[k] == rows[i]);
        }
    }
    assert forall|row: OutboxRow| after.contains(row) <==> rows.contains(row) || row == fresh(
        entry,
    ) by {
        if after.contains(row) {
            let k = choose|k: int| 0 <= k < after.len() && after[k] == row;
            if k != at {
                let i = if k < at { k } else { k - 1 };
                assert(rows[i] == row);
            }
        }
        if rows.contains(row) {
            let i = choose|i: int| 0 <= i < rows.len() && rows[i] == row;
            let k = if i < at { i } else { i + 1 };
            assert(after[k] == row);
        }
        if row == fresh(entry) {
            assert(after[at] == row);
        }
    }
}

/// A batch that went in added one unprocessed, unclaimed row for each of its
/// entries and left every other row as it was.
pub proof fn lemma_inserted_all_adds(
    rows: Seq<OutboxRow>,
    batch: Seq<OutboxEntryView>,
    after: Seq<OutboxRow>,
)
    requires
        well_formed(rows),
        inserted_all(rows, batch) == Some(after),
    ensures
        well_formed(after),
        after.len() == rows.len() + batch.len(),
        forall|row: OutboxRow|
            after.contains(row) <==> rows.contains(row) || exists|k: int|
                0 <= k < batch.len() && row == fresh(#[trigger] batch[k]),
    decreases batch.len(),
{
    if batch.len() > 0 {
        let first = batch[0];
        let rest = batch.drop_first();
        let next = inserted(rows, first);
        lemma_inserted_well_formed(rows, first);
        lemma_inserted_all_adds(next, rest, after);
        assert forall|row: OutboxRow|
            after.contains(row) <==> rows.contains(row) || exists|k: int|
                0 <= k < batch.len() && row == fresh(#[trigger] batch[k]) by {
            if after.contains(row) && !rows.contains(row) {
                if row == fresh(first) {
                    assert(row == fresh(batch[0]));
                } else {
                    let k = choose|k: int| 0 <= k < rest.len() && row == fresh(#[trigger] rest[k]);
                    assert(row == fresh(batch[k + 1]));
                }
            }
            if exists|k: int| 0 <= k < batch.len() && row == fresh(#[trigger] batch[k]) {
                let k = choose|k: int| 0 <= k < batch.len() && row == fresh(#[trigger] batch[k]);
                if k > 0 {
                    assert(row == fresh(rest[k - 1]));
                }
            }
        }
    }
}

/// Marking changes neither the identifiers nor the order of the rows.
pub proof fn lemma_marked_well_formed(rows: Seq<OutboxRow>, id: u64)
    requires
        well_formed(rows),
    ensures
        well_formed(marked(rows, id)),
        marked(rows, id).len() == rows.len(),
{
    let after = marked(rows, id);
    assert forall|i: int| 0 <= i < after.len() implies (#[trigger] after[i]).entry.id
        == rows[i].entry.id && after[i].entry.created_at == rows[i].entry.created_at by {}
}

/// Marking an entry a second time changes nothing, and marking an entry that is
/// already processed changes nothing at all.
pub proof fn lemma_mark_processed_idempotent(rows: Seq<OutboxRow>, id: u64)
    ensures
        marked(marked(rows, id), id) == marked(rows, id),
        (forall|i: int| 0 <= i < rows.len() && rows[i].entry.id == id ==> rows[i].entry.processed)
            ==> marked(rows, id) == rows,
{
    assert(marked(marked(rows, id), id) =~= marked(rows, id));
    if forall|i: int| 0 <= i < rows.len() && rows[i].entry.id == id ==> rows[i].entry.processed {
        assert(marked(rows, id) =~= rows);
    }
}

struct Row {
    entry: OutboxEntry,
    claimed: bool,
}

impl View for Row {
    type V = OutboxRow;

    closed spec fn view(&self) -> OutboxRow {
        OutboxRow { entry: self.entry@, claimed: self.claimed }
    }
}

spec fn row_views(rows: Seq<Row>) -> Seq<OutboxRow> {
    rows.map_values(|row: Row| row@)
}

/// An outbox held in memory: its rows, oldest first, each with a claim flag.
///
/// Entries come into the store through the commit of a unit of work and in no
/// other way. A publisher fetches them, which claims them, delivers them, and
/// marks each as processed; an entry is never taken out again.
pub struct OutboxStore {
    rows: Vec<Row>,
}

impl View for OutboxStore {
    type V = Seq<OutboxRow>;

    closed spec fn view(&self) -> Seq<OutboxRow> {
        row_views(self.rows@)
    }
}

impl OutboxStore {
    #[verifier::type_invariant]
    spec fn inv(&self) -> bool {
        well_formed(self@)
    }

    /// An empty store.
    pub fn new() -> (store: OutboxStore)
        ensures
            store@ == Seq::<OutboxRow>::empty(),
    {
        let store = OutboxStore { rows: Vec::new() };
        proof {
            assert(store@ =~= Seq::<OutboxRow>::empty());
        }
        store
    }

    /// The number of entries, processed or not. A store is always well formed:
    /// its identifiers are distinct and its rows stand oldest first.
    pub fn len(&self) -> (n: usize)
        ensures
            n == self@.len(),
            well_formed(self@),
    {
        proof {
            use_type_invariant(self);
        }
        self.rows.len()
    }

    /// Whether an entry with this identifier is in the store.
    pub fn contains(&self, id: u64) -> (found: bool)
        ensures
            found == holds_id(self@, id),
    {
        let mut i: usize = 0;
        while i < self.rows.len()
            invariant
                i <= self.rows.len(),
                forall|j: int| 0 <= j < i ==> (#[trigger] self@[j]).entry.id != id,
            decreases self.rows.len() - i,
        {
            if self.rows[i].entry.id == id {
                assert(self@[i as int].entry.id == id);
                return true;
            }
            i += 1;
        }
        false
    }

    /// A copy of the entry with this identifier, if the store has one.
    pub fn get(&self, id: u64) -> (entry: Option<OutboxEntry>)
        ensures
            match entry {
                Some(e) => e@.id == id && self@.map_values(entry_of()).contains(e@),
                None => !holds_id(self@, id),
            },
    {
        let mut i: usize = 0;
        while i < self.rows.len()
            invariant
                i <= self.rows.len(),
                forall|j: int| 0 <= j < i ==> (#[trigger] self@[j]).entry.id != id,
            decreases self.rows.len() - i,
        {
            if self.rows[i].entry.id == id {
                let found = self.rows[i].entry.clone();
                assert(self@.map_values(entry_of())[i as int] == found@);
                return Some(found);
            }
            i += 1;
        }
        None
    }

    /// Copies of all entries, oldest first.
    pub fn entries(&self) -> (all: Vec<OutboxEntry>)
        ensures
            entry_views(all@) == self@.map_values(entry_of()),
    {
        let mut all: Vec<OutboxEntry> = Vec::new();
        let mut i: usize = 0;
        while i < self.rows.len()
            invariant
                i <= self.rows.len(),
                all@.len() == i,
                forall|j: int| 0 <= j < i ==> (#[trigger] all@[j])@ == self@[j].entry,
            decreases self.rows.len() - i,
        {
            all.push(self.rows[i].entry.clone());
            i += 1;
        }
        proof {
            assert(entry_views(all@) =~= self@.map_values(entry_of()));
        }
        all
    }

    /// Puts `entry` into the store as an unprocessed, unclaimed row, behind every
    /// row that is not younger. The identifier is the key of the store: where it
    /// is taken already, nothing is changed and `DatabaseError` comes back.
    pub(crate) fn insert(&mut self, entry: OutboxEntry) -> (result: Result<(), BaseError>)
        ensures
            well_formed(final(self)@),
            match result {
                Ok(()) => !holds_id(old(self)@, entry@.id) && final(self)@ == inserted(
                    old(self)@,
                    entry@,
                ),
                Err(e) => holds_id(old(self)@, entry@.id) && final(self)@ == old(self)@ && e@
                    == BaseErrorView::DatabaseError,
            },
    {
        proof {
            use_type_invariant(&*self);
        }
        if self.contains(entry.id) {
            return Err(BaseError::DatabaseError);
        }
        let created_at = entry.created_at;
        let ghost before = self@;
        let mut rows: Vec<Row> = Vec::new();
        proof {
            assert(row_views(rows@) =~= Seq::<OutboxRow>::empty());
        }
        core::mem::swap(&mut self.rows, &mut rows);
        let mut i: usize = 0;
        while i < rows.len() && rows[i].entry.created_at <= created_at
            invariant
                i <= rows.len(),
                row_views(rows@) == before,
                forall|j: int| 0 <= j < i ==> (#[trigger] before[j]).entry.created_at <= created_at,
            decreases rows.len() - i,
        {
            assert(before[i as int].entry.created_at <= created_at);
            i += 1;
        }
        let mut entry = entry;
        entry.processed = false;
        proof {
            lemma_slot_splits(before, created_at);
            if i < rows.len() {
                assert(before[i as int].entry.created_at > created_at);
            }
            assert(slot(before, created_at) == i) by {
                let s = slot(before, created_at);
                if s < i {
                    assert(before[s].entry.created_at > created_at);
                }
                if s > i {
                    assert(before[i as int].entry.created_at <= created_at);
                }
            }
            lemma_inserted_well_formed(before, entry@);
        }
        rows.insert(i, Row { entry, claimed: false });
        proof {
            assert(row_views(rows@) =~= inserted(before, entry@));
        }
        self.rows = rows;
        Ok(())
    }

    fn snapshot(&self) -> (copy: Vec<Row>)
        ensures
            row_views(copy@) == self@,
    {
        let mut copy: Vec<Row> = Vec::new();
        let mut i: usize = 0;
        while i < self.rows.len()
            invariant
                i <= self.rows.len(),
                copy@.len() == i,
                forall|j: int| 0 <= j < i ==> (#[trigger] copy@[j])@ == self@[j],
            decreases self.rows.len() - i,
        {
            copy.push(Row { entry: self.rows[i].entry.clone(), claimed: self.rows[i].claimed });
            i += 1;
        }
        proof {
            assert(row_views(copy@) =~= self@);
        }
        copy
    }

    /// Whether the store would take all of `batch`: no entry of it meets its own
    /// identifier, in the store or earlier in the batch. The store is not
    /// changed.
    pub fn accepts(&self, batch: &Vec<OutboxEntry>) -> (accepted: bool)
        ensures
            accepted == inserted_all(self@, entry_views(batch@)).is_some(),
    {
        proof {
            use_type_invariant(self);
        }
        let mut trial = OutboxStore { rows: self.snapshot() };
        trial.insert_all(batch).is_ok()
    }

    /// Puts all of `batch` into the store, in its order, or none of it: where one
    /// entry meets its own identifier, in the store or earlier in the batch, the
    /// store is left as it was and `DatabaseError` comes back.
    pub(crate) fn insert_all(&mut self, batch: &Vec<OutboxEntry>) -> (result: Result<(), BaseError>)
        ensures
            well_formed(final(self)@),
            match result {
                Ok(()) => inserted_all(old(self)@, entry_views(batch@)) == Some(final(self)@),
                Err(e) => inserted_all(old(self)@, entry_views(batch@)).is_none() && final(self)@
                    == old(self)@ && e@ == BaseErrorView::DatabaseError,
            },
    {
        proof {
            use_type_invariant(&*self);
        }
        let saved = self.snapshot();
        let ghost wanted = entry_views(batch@);
        let mut k: usize = 0;
        proof {
            assert(wanted.skip(0) =~= wanted);
        }
        while k < batch.len()
            invariant
                k <= batch.len(),
                wanted == entry_views(batch@),
                row_views(saved@) == old(self)@,
                well_formed(old(self)@),
                well_formed(self@),
                inserted_all(old(self)@, wanted) == inserted_all(self@, wanted.skip(k as int)),
            decreases batch.len() - k,
        {
            let ghost rest = wanted.skip(k as int);
            proof {
                assert(rest[0] == batch@[k as int]@);
                assert(rest.drop_first() =~= wanted.skip(k as int + 1));
            }
            match self.insert(batch[k].clone()) {
                Ok(()) => {},
                Err(e) => {
                    self.rows = saved;
                    return Err(e);
                },
            }
            k += 1;
        }
        proof {
            assert(wanted.skip(k as int).len() == 0);
        }
        Ok(())
    }

    /// Marks the entry `id` as processed. Marking an entry that is processed
    /// already, or an identifier that the store does not hold, changes nothing.
    pub fn mark_processed(&mut self, id: u64)
        ensures
            final(self)@ == marked(old(self)@, id),
            well_formed(final(self)@),
    {
        proof {
            use_type_invariant(&*self);
        }
        let ghost before = self@;
        let mut rows: Vec<Row> = Vec::new();
        proof {
            assert(row_views(rows@) =~= Seq::<OutboxRow>::empty());
        }
        core::mem::swap(&mut self.rows, &mut rows);
        let mut i: usize = 0;
        while i < rows.len()
            invariant
                i <= rows.len(),
                rows@.len() == before.len(),
                forall|j: int| 0 <= j < i ==> (#[trigger] rows@[j])@ == marked(before, id)[j],
                forall|j: int| i <= j < rows.len() ==> (#[trigger] rows@[j])@ == before[j],
            decreases rows.len() - i,
        {
            if rows[i].entry.id == id {
                rows[i].entry.processed = true;
            }
            i += 1;
        }
        proof {
            assert(row_views(rows@) =~= marked(before, id));
            lemma_marked_well_formed(before, id);
        }
        self.rows = rows;
    }

    /// Gives up the claim on the entry `id`, so that a later fetch returns the
    /// entry again unless it has been processed meanwhile.
    pub fn release(&mut self, id: u64)
        ensures
            final(self)@ == released(old(self)@, id),
            well_formed(final(self)@),
    {
        proof {
            use_type_invariant(&*self);
        }
        let ghost before = self@;
        let mut rows: Vec<Row> = Vec::new();
        proof {
            assert(row_views(rows@) =~= Seq::<OutboxRow>::empty());
        }
        core::mem::swap(&mut self.rows, &mut rows);
        let mut i: usize = 0;
        while i < rows.len()
            invariant
                i <= rows.len(),
                rows@.len() == before.len(),
                forall|j: int| 0 <= j < i ==> (#[trigger] rows@[j])@ == released(before, id)[j],
                forall|j: int| i <= j < rows.len() ==> (#[trigger] rows@[j])@ == before[j],
            decreases rows.len() - i,
        {
            if rows[i].entry.id == id {
                rows[i].claimed = false;
            }
            i += 1;
        }
        proof {
            let after = released(before, id);
            assert(row_views(rows@) =~= after);
            assert forall|j: int| 0 <= j < after.len() implies (#[trigger] after[j]).entry
                == before[j].entry by {}
        }
        self.rows = rows;
    }

    /// Returns copies of the first `limit` entries that are neither processed nor
    /// claimed, oldest first, and claims them: no later fetch returns one of them
    /// until its claim is released.
    pub fn fetch_unprocessed(&mut self, limit: usize) -> (batch: Vec<OutboxEntry>)
        ensures
            entry_views(batch@) == fetched(old(self)@, limit as nat),
            final(self)@ == after_fetch(old(self)@, limit as nat),
            well_formed(final(self)@),
    {
        proof {
            use_type_invariant(&*self);
        }
        let ghost before = self@;
        let mut rows: Vec<Row> = Vec::new();
        proof {
            assert(row_views(rows@) =~= Seq::<OutboxRow>::empty());
        }
        core::mem::swap(&mut self.rows, &mut rows);
        let mut batch: Vec<OutboxEntry> = Vec::new();
        let mut i: usize = 0;
        proof {
            assert(before.take(0) =~= Seq::<OutboxRow>::empty());
            assert(entry_views(batch@) =~= before.take(0).filter(is_available()).map_values(
                entry_of(),
            ));
        }
        while i < rows.len() && batch.len() < limit
            invariant
                i <= rows.len(),
                rows@.len() == before.len(),
                batch@.len() <= limit,
                batch@.len() == rank(before, i as int),
                entry_views(batch@) == before.take(i as int).filter(is_available()).map_values(
                    entry_of(),
                ),
                forall|j: int| 0 <= j < i ==> (#[trigger] rows@[j])@ == after_fetch(before, limit as nat)[j],
                forall|j: int| i <= j < rows.len() ==> (#[trigger] rows@[j])@ == before[j],
            decreases rows.len() - i,
        {
            let ghost seen = before.take(i as int);
            proof {
                assert(before.take(i as int + 1) =~= seen.push(before[i as int]));
                seen.lemma_filter_push(before[i as int], is_available());
            }
            if !rows[i].entry.processed && !rows[i].claimed {
                let ghost held = entry_views(batch@);
                batch.push(rows[i].entry.clone());
                rows[i].claimed = true;
                proof {
                    let chosen = seen.filter(is_available());
                    assert(before[i as int].available());
                    assert(entry_views(batch@) =~= held.push(before[i as int].entry));
                    assert(chosen.push(before[i as int]).map_values(entry_of())
                        =~= chosen.map_values(entry_of()).push(before[i as int].entry));
                }
            }
            i += 1;
        }
        proof {
            lemma_fetch_done(before, limit as nat, i as int);
            assert(row_views(rows@) =~= after_fetch(before, limit as nat));
            let after = after_fetch(before, limit as nat);
            assert forall|j: int| 0 <= j < after.len() implies (#[trigger] after[j]).entry
                == before[j].entry by {}
        }
        self.rows = rows;
        batch
    }
}

/// The available rows among the first `i` are the first of all available rows.
pub proof fn lemma_rank_monotone(rows: Seq<OutboxRow>, i: int, j: int)
    requires
        0 <= i <= j <= rows.len(),
    ensures
        rank(rows, i) <= rank(rows, j),
        rows.take(i).filter(is_available()) == rows.take(j).filter(is_available()).take(
            rank(rows, i) as int,
        ),
{
    let head = rows.take(i);
    let tail = rows.take(j).skip(i);
    assert(rows.take(j) =~= head + tail);
    Seq::filter_distributes_over_add(head, tail, is_available());
    assert(head.filter(is_available()) =~= (head.filter(is_available()) + tail.filter(
        is_available(),
    )).take(head.filter(is_available()).len() as int));
}

/// Where a scan of the first `i` rows stopped, because the rows ran out or
/// because `limit` available rows had been seen, what it saw is what a fetch
/// returns, and no row behind it is touched.
proof fn lemma_fetch_done(rows: Seq<OutboxRow>, limit: nat, i: int)
    requires
        0 <= i <= rows.len(),
        rank(rows, i) <= limit,
        i == rows.len() || rank(rows, i) == limit,
    ensures
        fetched(rows, limit) == rows.take(i).filter(is_available()).map_values(entry_of()),
        forall|j: int| i <= j < rows.len() ==> (#[trigger] after_fetch(rows, limit)[j]) == rows[j],
{
    lemma_rank_monotone(rows, i, rows.len() as int);
    assert(rows.take(rows.len() as int) =~= rows);
    let all = rows.filter(is_available());
    let seen = rows.take(i).filter(is_available());
    if i == rows.len() {
        assert(rows.take(i) =~= rows);
        assert(fetched(rows, limit) =~= seen.map_values(entry_of()));
    } else {
        assert(seen == all.take(limit as int));
        assert(fetched(rows, limit) =~= seen.map_values(entry_of()));
    }
    assert forall|j: int| i <= j < rows.len() implies (#[trigger] after_fetch(rows, limit)[j])
        == rows[j] by {
        lemma_rank_monotone(rows, i, j);
    }
}


/// Each of the first `rank(rows, n)` available rows stands somewhere among the
/// first `n` rows, behind exactly as many available rows as its number says.
proof fn lemma_available_has_place(rows: Seq<OutboxRow>, n: int, k: int) -> (i: int)
    requires
        0 <= n <= rows.len(),
        0 <= k < rank(rows, n),
    ensures
        0 <= i < n,
        rows[i].available(),
        rank(rows, i) == k,
        rows.take(n).filter(is_available())[k] == rows[i],
    decreases n,
{
    let front = rows.take(n - 1);
    assert(rows.take(n) =~= front.push(rows[n - 1]));
    front.lemma_filter_push(rows[n - 1], is_available());
    if rows[n - 1].available() && k == rank(rows, n - 1) {
        n - 1
    } else {
        lemma_available_has_place(rows, n - 1, k)
    }
}

/// Every entry that a fetch returns is the entry of an available row that has
/// fewer than `limit` available rows in front of it.
pub proof fn lemma_fetched_from_available(rows: Seq<OutboxRow>, limit: nat, k: int) -> (i: int)
    requires
        0 <= k < fetched(rows, limit).len(),
    ensures
        0 <= i < rows.len(),
        rows[i].available(),
        rank(rows, i) == k,
        k < limit,
        rows[i].entry == fetched(rows, limit)[k],
        after_fetch(rows, limit)[i].claimed,
{
    assert(rows.take(rows.len() as int) =~= rows);
    lemma_available_has_place(rows, rows.len() as int, k)
}

/// No entry is handed to two fetches: what one fetch returned, the next fetch
/// does not return, whatever its limit, as long as no claim is released.
pub proof fn lemma_no_entry_fetched_twice(
    rows: Seq<OutboxRow>,
    first_limit: nat,
    second_limit: nat,
)
    requires
        well_formed(rows),
    ensures
        forall|a: int, b: int|
            0 <= a < fetched(rows, first_limit).len() && 0 <= b < fetched(
                after_fetch(rows, first_limit),
                second_limit,
            ).len() ==> (#[trigger] fetched(rows, first_limit)[a]).id != (#[trigger] fetched(
                after_fetch(rows, first_limit),
                second_limit,
            )[b]).id,
{
    let after = after_fetch(rows, first_limit);
    assert forall|a: int, b: int|
        0 <= a < fetched(rows, first_limit).len() && 0 <= b < fetched(
            after,
            second_limit,
        ).len() implies (#[trigger] fetched(rows, first_limit)[a]).id != (#[trigger] fetched(
        after,
        second_limit,
    )[b]).id by {
        let i = lemma_fetched_from_available(rows, first_limit, a);
        let j = lemma_fetched_from_available(after, second_limit, b);
        assert(after[j].entry == rows[j].entry);
        if i != j {
            assert(rows[i].entry.id != rows[j].entry.id);
        }
    }
}


/// A fetch returns its entries in the order of their creation times, and no
/// available entry that it leaves behind is older than one that it returns.
pub proof fn lemma_fetched_oldest_first(rows: Seq<OutboxRow>, limit: nat)
    requires
        well_formed(rows),
    ensures
        forall|a: int, b: int|
            0 <= a <= b < fetched(rows, limit).len() ==> (#[trigger] fetched(
                rows,
                limit,
            )[a]).created_at <= (#[trigger] fetched(rows, limit)[b]).created_at,
        forall|a: int, i: int|
            0 <= a < fetched(rows, limit).len() && 0 <= i < rows.len() && rows[i].available()
                && !after_fetch(rows, limit)[i].claimed ==> (#[trigger] fetched(
                rows,
                limit,
            )[a]).created_at <= (#[trigger] rows[i]).entry.created_at,
{
    assert forall|a: int, b: int| 0 <= a <= b < fetched(rows, limit).len() implies (
    #[trigger] fetched(rows, limit)[a]).created_at <= (#[trigger] fetched(
        rows,
        limit,
    )[b]).created_at by {
        let i = lemma_fetched_from_available(rows, limit, a);
        let j = lemma_fetched_from_available(rows, limit, b);
        if j < i {
            lemma_rank_monotone(rows, j, i);
            lemma_rank_monotone(rows, j + 1, i);
            assert(rows.take(j + 1) =~= rows.take(j).push(rows[j]));
            rows.take(j).lemma_filter_push(rows[j], is_available());
        }
    }
    assert forall|a: int, i: int|
        0 <= a < fetched(rows, limit).len() && 0 <= i < rows.len() && rows[i].available()
            && !after_fetch(rows, limit)[i].claimed implies (#[trigger] fetched(
        rows,
        limit,
    )[a]).created_at <= (#[trigger] rows[i]).entry.created_at by {
        let j = lemma_fetched_from_available(rows, limit, a);
        if i < j {
            lemma_rank_monotone(rows, i, j);
        }
    }
}


/// Entries are kept, and only marking changes them: an insert leaves every row
/// as it was, a fetch and a release change nothing but claims, and marking
/// turns the one entry to processed. Nothing ever leaves the store or goes back
/// to unprocessed.
pub proof fn lemma_entries_are_retained(
    rows: Seq<OutboxRow>,
    entry: OutboxEntryView,
    id: u64,
    limit: nat,
)
    requires
        well_formed(rows),
    ensures
        !holds_id(rows, entry.id) ==> forall|row: OutboxRow|
            rows.contains(row) ==> inserted(rows, entry).contains(row),
        after_fetch(rows, limit).map_values(entry_of()) == rows.map_values(entry_of()),
        released(rows, id).map_values(entry_of()) == rows.map_values(entry_of()),
        marked(rows, id).len() == rows.len(),
        forall|i: int|
            0 <= i < rows.len() ==> (#[trigger] marked(rows, id)[i]).entry == if rows[i].entry.id
                == id {
                rows[i].entry.delivered()
            } else {
                rows[i].entry
            },
{
    if !holds_id(rows, entry.id) {
        lemma_inserted_well_formed(rows, entry);
    }
    assert(after_fetch(rows, limit).map_values(entry_of()) =~= rows.map_values(entry_of()));
    assert(released(rows, id).map_values(entry_of()) =~= rows.map_values(entry_of()));
}

} // verus!
