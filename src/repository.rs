//! The record repository over a table of rows: every operation either
//! succeeds or fails with one of two classified errors.
use vstd::prelude::*;
use crate::models::{NewRustacean, Rustacean, RustaceanView};

verus! {

/// How a repository operation failed.
pub enum StoreError {
    /// No row has the requested id.
    NotFound,
    /// Any other failure of the store, with its description.
    Failure(String),
}

/// The content of a table: its rows in storage order and the id that the
/// next created row receives.
pub struct TableView {
    pub rows: Seq<RustaceanView>,
    pub next_id: int,
}

/// The position of the row with id `id`, if there is one.
pub open spec fn row_index(rows: Seq<RustaceanView>, id: int) -> Option<int> {
    if exists|i: int| 0 <= i < rows.len() && rows[i].id == id {
        Some(choose|i: int| 0 <= i < rows.len() && rows[i].id == id)
    } else {
        None
    }
}

/// Ids are positive, below `next_id` and distinct.
pub open spec fn table_wf(t: TableView) -> bool {
    &&& 1 <= t.next_id <= i32::MAX
    &&& forall|i: int| 0 <= i < t.rows.len() ==> 1 <= #[trigger] t.rows[i].id < t.next_id
    &&& forall|i: int, j: int|
        0 <= i < t.rows.len() && 0 <= j < t.rows.len() && i != j ==> #[trigger] t.rows[i].id
            != #[trigger] t.rows[j].id
}

/// The rows that a listing of at most `limit` rows returns.
pub open spec fn spec_find_all(t: TableView, limit: nat) -> Seq<RustaceanView> {
    if t.rows.len() <= limit {
        t.rows
    } else {
        t.rows.take(limit as int)
    }
}

/// The row with id `id`.
pub open spec fn spec_find(t: TableView, id: int) -> Option<RustaceanView> {
    match row_index(t.rows, id) {
        Some(i) => Some(t.rows[i]),
        None => None,
    }
}

/// Whether the table can hand out another id.
pub open spec fn has_free_id(t: TableView) -> bool {
    t.next_id < i32::MAX
}

/// The row that creating `name`/`email` at time `now` adds.
pub open spec fn created_row(
    t: TableView,
    name: Seq<char>,
    email: Seq<char>,
    now: Seq<char>,
) -> RustaceanView {
    RustaceanView { id: t.next_id, name, email, created_at: now }
}

/// The table after a row is created.
pub open spec fn spec_create(
    t: TableView,
    name: Seq<char>,
    email: Seq<char>,
    now: Seq<char>,
) -> TableView {
    TableView { rows: t.rows.push(created_row(t, name, email, now)), next_id: t.next_id + 1 }
}

/// `row` with the name and email of `payload`.
pub open spec fn saved_row(row: RustaceanView, payload: RustaceanView) -> RustaceanView {
    RustaceanView { name: payload.name, email: payload.email, ..row }
}

/// The table after the row with id `id` takes the name and email of
/// `payload`; unchanged where there is no such row.
pub open spec fn spec_save(t: TableView, id: int, payload: RustaceanView) -> TableView {
    match row_index(t.rows, id) {
        Some(i) => TableView { rows: t.rows.update(i, saved_row(t.rows[i], payload)), ..t },
        None => t,
    }
}

/// The table after the row with id `id` is removed; unchanged where there
/// is no such row.
pub open spec fn spec_delete(t: TableView, id: int) -> TableView {
    match row_index(t.rows, id) {
        Some(i) => TableView { rows: t.rows.remove(i), ..t },
        None => t,
    }
}

/// The outcome of a statement that should have touched the row it names:
/// `NotFound` where it touched none.
pub fn require_affected(rows: usize) -> (r: Result<(), StoreError>)
    ensures
        r is Ok <==> rows > 0,
        r matches Err(e) ==> e is NotFound,
{
    if rows == 0 {
        Err(StoreError::NotFound)
    } else {
        Ok(())
    }
}

/// An in-memory table of records.
pub struct RustaceanRepository {
    rows: Vec<Rustacean>,
    next_id: i32,
}

impl View for RustaceanRepository {
    type V = TableView;

    closed spec fn view(&self) -> TableView {
        TableView { rows: self.rows@.map_values(|r: Rustacean| r@), next_id: self.next_id as int }
    }
}

impl RustaceanRepository {
    /// An empty table; the first row created gets id 1.
    pub fn new() -> (r: RustaceanRepository)
        ensures
            r@.rows.len() == 0,
            r@.next_id == 1,
            table_wf(r@),
    {
        RustaceanRepository { rows: Vec::new(), next_id: 1 }
    }

    fn position(&self, id: i32) -> (r: Option<usize>)
        requires
            table_wf(self@),
        ensures
            match r {
                Some(i) => row_index(self@.rows, id as int) == Some(i as int),
                None => row_index(self@.rows, id as int) is None,
            },
    {
        let mut i: usize = 0;
        while i < self.rows.len()
            invariant
                i <= self.rows@.len(),
                table_wf(self@),
                forall|j: int| 0 <= j < i ==> self@.rows[j].id != id,
            decreases self.rows@.len() - i,
        {
            if self.rows[i].id == id {
                assert(self@.rows[i as int].id == id);
                let ghost k = choose|k: int|
                    0 <= k < self@.rows.len() && self@.rows[k].id == id as int;
                assert(self@.rows[k].id == self@.rows[i as int].id);
                assert(k == i);
                return Some(i);
            }
            i = i + 1;
        }
        None
    }

    /// At most `limit` records, in storage order.
    pub fn find_all(&self, limit: usize) -> (r: Vec<Rustacean>)
        ensures
            r@.map_values(|x: Rustacean| x@) == spec_find_all(self@, limit as nat),
            r@.len() <= limit,
    {
        let mut out: Vec<Rustacean> = Vec::new();
        let mut i: usize = 0;
        while i < self.rows.len() && i < limit
            invariant
                i <= self.rows@.len(),
                i <= limit,
                out@.map_values(|x: Rustacean| x@) == self@.rows.take(i as int),
            decreases self.rows@.len() - i,
        {
            let row = self.rows[i].duplicate();
            out.push(row);
            assert(self@.rows.take(i + 1) =~= self@.rows.take(i as int).push(row@));
            assert(out@.map_values(|x: Rustacean| x@) =~= self@.rows.take(i as int).push(row@));
            i = i + 1;
        }
        assert(self@.rows.len() <= limit ==> self@.rows.take(i as int) =~= self@.rows);
        out
    }

    /// The record with id `id`, or `NotFound`.
    pub fn find(&self, id: i32) -> (r: Result<Rustacean, StoreError>)
        requires
            table_wf(self@),
        ensures
            match r {
                Ok(x) => spec_find(self@, id as int) == Some(x@),
                Err(e) => spec_find(self@, id as int) is None && e is NotFound,
            },
    {
        match self.position(id) {
            Some(i) => Ok(self.rows[i].duplicate()),
            None => Err(StoreError::NotFound),
        }
    }

    /// Inserts a record with the next id and `now` as its creation time,
    /// and returns it; fails, changing nothing, once ids run out.
    pub fn create(&mut self, new_rustacean: NewRustacean, now: String) -> (r: Result<
        Rustacean,
        StoreError,
    >)
        requires
            table_wf(old(self)@),
        ensures
            table_wf(final(self)@),
            r is Ok <==> has_free_id(old(self)@),
            match r {
                Ok(x) => x@ == created_row(
                    old(self)@,
                    new_rustacean.name@,
                    new_rustacean.email@,
                    now@,
                ) && final(self)@ == spec_create(
                    old(self)@,
                    new_rustacean.name@,
                    new_rustacean.email@,
                    now@,
                ),
                Err(e) => e is Failure && final(self)@ == old(self)@,
            },
    {
        if self.next_id == i32::MAX {
            return Err(StoreError::Failure("no id is left for a new record".to_owned()));
        }
        let row = Rustacean {
            id: self.next_id,
            name: new_rustacean.name,
            email: new_rustacean.email,
            created_at: now,
        };
        let ghost old_view = self@;
        self.rows.push(row.duplicate());
        self.next_id = self.next_id + 1;
        assert(self@.rows =~= old_view.rows.push(row@));
        Ok(row)
    }

    /// Gives the record with id `id` the name and email of `payload`; its id
    /// and creation time stay. Fails with `NotFound`, changing nothing, where
    /// no record has that id.
    pub fn save(&mut self, id: i32, payload: Rustacean) -> (r: Result<Rustacean, StoreError>)
        requires
            table_wf(old(self)@),
        ensures
            table_wf(final(self)@),
            final(self)@ == spec_save(old(self)@, id as int, payload@),
            match r {
                Ok(x) => row_index(old(self)@.rows, id as int) matches Some(i) && x@ == saved_row(
                    old(self)@.rows[i],
                    payload@,
                ),
                Err(e) => row_index(old(self)@.rows, id as int) is None && e is NotFound,
            },
    {
        match self.position(id) {
            None => Err(StoreError::NotFound),
            Some(i) => {
                let row = Rustacean {
                    id: self.rows[i].id,
                    name: payload.name,
                    email: payload.email,
                    created_at: self.rows[i].created_at.clone(),
                };
                let ghost old_view = self@;
                self.rows.set(i, row.duplicate());
                assert(self@.rows =~= old_view.rows.update(
                    i as int,
                    saved_row(old_view.rows[i as int], payload@),
                ));
                assert forall|a: int, b: int|
                    0 <= a < self@.rows.len() && 0 <= b < self@.rows.len() && a != b implies #[trigger] self@.rows[a].id
                    != #[trigger] self@.rows[b].id by {
                    assert(self@.rows[a].id == old_view.rows[a].id);
                    assert(self@.rows[b].id == old_view.rows[b].id);
                }
                assert forall|a: int| 0 <= a < self@.rows.len() implies 1 <= #[trigger] self@.rows[a].id
                    < self@.next_id by {
                    assert(self@.rows[a].id == old_view.rows[a].id);
                }
                Ok(row)
            },
        }
    }

    /// Removes the record with id `id`; fails with `NotFound`, changing
    /// nothing, where no record has that id.
    pub fn delete(&mut self, id: i32) -> (r: Result<(), StoreError>)
        requires
            table_wf(old(self)@),
        ensures
            table_wf(final(self)@),
            final(self)@ == spec_delete(old(self)@, id as int),
            r is Ok <==> row_index(old(self)@.rows, id as int) is Some,
            r matches Err(e) ==> e is NotFound,
    {
        match self.position(id) {
            None => Err(StoreError::NotFound),
            Some(i) => {
                let ghost old_view = self@;
                self.rows.remove(i);
                assert(self@.rows =~= old_view.rows.remove(i as int));
                assert forall|a: int, b: int|
                    0 <= a < self@.rows.len() && 0 <= b < self@.rows.len() && a != b implies #[trigger] self@.rows[a].id
                    != #[trigger] self@.rows[b].id by {
                    let oa = if a < i { a } else { a + 1 };
                    let ob = if b < i { b } else { b + 1 };
                    assert(self@.rows[a] == old_view.rows[oa]);
                    assert(self@.rows[b] == old_view.rows[ob]);
                }
                assert forall|a: int| 0 <= a < self@.rows.len() implies 1 <= #[trigger] self@.rows[a].id
                    < self@.next_id by {
                    let oa = if a < i { a } else { a + 1 };
                    assert(self@.rows[a] == old_view.rows[oa]);
                }
                Ok(())
            },
        }
    }
}

/// Creating a record and then looking up the id it received finds that
/// very record: same id, name, email and creation time.
pub proof fn lemma_create_then_find(t: TableView, name: Seq<char>, email: Seq<char>, now: Seq<char>)
    requires
        table_wf(t),
        has_free_id(t),
    ensures
        ({
            let row = created_row(t, name, email, now);
            &&& table_wf(spec_create(t, name, email, now))
            &&& spec_find(spec_create(t, name, email, now), row.id) == Some(row)
        }),
{
    let row = created_row(t, name, email, now);
    let t2 = spec_create(t, name, email, now);
    let n = t.rows.len() as int;
    assert(t2.rows[n].id == row.id);
    let k = choose|k: int| 0 <= k < t2.rows.len() && t2.rows[k].id == row.id;
    if k != n {
        assert(t2.rows[k] == t.rows[k]);
    }
    assert forall|i: int, j: int|
        0 <= i < t2.rows.len() && 0 <= j < t2.rows.len() && i != j implies #[trigger] t2.rows[i].id
        != #[trigger] t2.rows[j].id by {
        if i < n && j < n {
            assert(t2.rows[i] == t.rows[i] && t2.rows[j] == t.rows[j]);
        } else if i < n {
            assert(t2.rows[i] == t.rows[i]);
        } else if j < n {
            assert(t2.rows[j] == t.rows[j]);
        }
    }
    assert forall|i: int| 0 <= i < t2.rows.len() implies 1 <= #[trigger] t2.rows[i].id
        < t2.next_id by {
        if i < n {
            assert(t2.rows[i] == t.rows[i]);
        }
    }
}

/// Once a record is deleted its id is gone: a second delete of that id
/// finds no record (so it fails with `NotFound`) and changes nothing.
pub proof fn lemma_delete_twice(t: TableView, id: int)
    requires
        table_wf(t),
    ensures
        row_index(spec_delete(t, id).rows, id) is None,
        spec_delete(spec_delete(t, id), id) == spec_delete(t, id),
{
    let t1 = spec_delete(t, id);
    if let Some(i) = row_index(t.rows, id) {
        assert forall|k: int| 0 <= k < t1.rows.len() implies t1.rows[k].id != id by {
            let ok = if k < i { k } else { k + 1 };
            assert(t1.rows[k] == t.rows[ok]);
            assert(t.rows[i].id == id);
        }
    }
}

/// A listing never holds more than `limit` records, and holds exactly
/// `limit` of them when the table has at least that many.
pub proof fn lemma_find_all_bounded(t: TableView, limit: nat)
    ensures
        spec_find_all(t, limit).len() <= limit,
        t.rows.len() >= limit ==> spec_find_all(t, limit).len() == limit,
{
}

/// Saving a payload under `id` keeps the stored id and creation time,
/// whatever id and creation time the payload carries, and takes its name
/// and email.
pub proof fn lemma_save_keeps_identity(t: TableView, id: int, payload: RustaceanView)
    requires
        table_wf(t),
    ensures
        spec_find(t, id) matches Some(before) ==> spec_find(spec_save(t, id, payload), id)
            matches Some(after) && after.id == before.id && after.created_at == before.created_at
            && after.name == payload.name && after.email == payload.email,
        spec_find(t, id) is None ==> spec_save(t, id, payload) == t,
{
    if let Some(i) = row_index(t.rows, id) {
        let t2 = spec_save(t, id, payload);
        assert(t2.rows[i].id == id);
        let k = choose|k: int| 0 <= k < t2.rows.len() && t2.rows[k].id == id;
        if k != i {
            assert(t2.rows[k] == t.rows[k]);
        }
    }
}

} // verus!
