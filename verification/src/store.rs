//! The store as the service sees it: five operations on one table of users,
//! what each of them answers, and a table in memory that carries them out.
//!
//! A deployment keeps its users in a relational store and reaches it over a
//! connection; that is not done here. [`TableView`] says what any store must
//! do to each operation, and [`Table`] is such a store in memory.

use crate::error::StoreError;
use crate::route::{Operation, OperationView};
use crate::user::{duplicate_all, rows_of, FieldsView, User, UserFields, UserView};
use vstd::prelude::*;

verus! {

/// What the store answers to an operation.
#[derive(Clone, Debug, PartialEq, Eq)]
pub enum StoreReply {
    /// All users, in the order of the store.
    Listed(Vec<User>),
    /// The user under the id that was asked for, if there is one.
    Fetched(Option<User>),
    /// The id that the store gave to the new user.
    Created(i32),
    /// Whether a user stood under the id and was changed.
    Updated(bool),
    /// Whether a user stood under the id and was removed.
    Deleted(bool),
    /// The store failed; nothing was changed.
    Failed(StoreError),
}

/// The mathematical content of a [`StoreReply`].
pub enum StoreReplyView {
    Listed(Seq<UserView>),
    Fetched(Option<UserView>),
    Created(int),
    Updated(bool),
    Deleted(bool),
    Failed(StoreError),
}

impl View for StoreReply {
    type V = StoreReplyView;

    open spec fn view(&self) -> StoreReplyView {
        match *self {
            StoreReply::Listed(users) => StoreReplyView::Listed(rows_of(users@)),
            StoreReply::Fetched(Some(user)) => StoreReplyView::Fetched(Some(user@)),
            StoreReply::Fetched(None) => StoreReplyView::Fetched(None),
            StoreReply::Created(id) => StoreReplyView::Created(id as int),
            StoreReply::Updated(done) => StoreReplyView::Updated(done),
            StoreReply::Deleted(done) => StoreReplyView::Deleted(done),
            StoreReply::Failed(e) => StoreReplyView::Failed(e),
        }
    }
}

/// The state of a table of users: its rows in ascending order of id, and the
/// id that the next new user gets.
pub struct TableView {
    pub rows: Seq<UserView>,
    pub next_id: int,
}

/// The ids of `rows` are positive and strictly ascending.
pub open spec fn ascending_ids(rows: Seq<UserView>) -> bool {
    &&& forall|i: int| 0 <= i < rows.len() ==> 1 <= (#[trigger] rows[i]).id
    &&& forall|i: int, j: int|
        0 <= i < j < rows.len() ==> (#[trigger] rows[i]).id < (#[trigger] rows[j]).id
}

impl TableView {
    /// Ids are positive, unique and ascending, and below the next id; the
    /// next id is at most one past the largest id there is.
    pub open spec fn wf(self) -> bool {
        &&& 1 <= self.next_id <= i32::MAX + 1
        &&& ascending_ids(self.rows)
        &&& forall|i: int| 0 <= i < self.rows.len() ==> (#[trigger] self.rows[i]).id < self.next_id
    }

    /// The table without rows, as it is when it has just been set up.
    pub open spec fn empty() -> TableView {
        TableView { rows: Seq::empty(), next_id: 1 }
    }

    /// The table that holds `rows` and gives out the id after the last of
    /// them next.
    pub open spec fn holding(rows: Seq<UserView>) -> TableView {
        TableView {
            rows,
            next_id: if rows.len() == 0 {
                1
            } else {
                rows.last().id + 1
            },
        }
    }

    /// A row stands at index `i` under the id `id`.
    pub open spec fn at(self, id: int, i: int) -> bool {
        0 <= i < self.rows.len() && self.rows[i].id == id
    }

    /// Some row has the id `id`.
    pub open spec fn holds(self, id: int) -> bool {
        exists|i: int| self.at(id, i)
    }

    /// The index of the row with the id `id`, where there is one.
    pub open spec fn position(self, id: int) -> int {
        choose|i: int| self.at(id, i)
    }

    /// The user under `id`.
    pub open spec fn fetch(self, id: int) -> Option<UserView> {
        if self.holds(id) {
            Some(self.rows[self.position(id)])
        } else {
            None
        }
    }

    /// All users, in ascending order of id.
    pub open spec fn list(self) -> Seq<UserView> {
        self.rows
    }

    /// Adds a user under the next id. Once every id has been given out the
    /// table refuses and stays as it is.
    pub open spec fn create(self, fields: FieldsView) -> (TableView, Result<int, StoreError>) {
        if self.next_id > i32::MAX {
            (self, Err(StoreError::Rejected))
        } else {
            (
                TableView {
                    rows: self.rows.push(fields.with_id(self.next_id)),
                    next_id: self.next_id + 1,
                },
                Ok(self.next_id),
            )
        }
    }

    /// Replaces name and email of the user under `id`; without such a user
    /// nothing changes.
    pub open spec fn update(self, id: int, fields: FieldsView) -> (TableView, bool) {
        if self.holds(id) {
            (
                TableView {
                    rows: self.rows.update(self.position(id), fields.with_id(id)),
                    next_id: self.next_id,
                },
                true,
            )
        } else {
            (self, false)
        }
    }

    /// Removes the user under `id`; without such a user nothing changes. The
    /// id is not given out again.
    pub open spec fn delete(self, id: int) -> (TableView, bool) {
        if self.holds(id) {
            (TableView { rows: self.rows.remove(self.position(id)), next_id: self.next_id }, true)
        } else {
            (self, false)
        }
    }

    /// The table after `op`, and the answer to `op`.
    pub open spec fn apply(self, op: OperationView) -> (TableView, StoreReplyView) {
        match op {
            OperationView::List => (self, StoreReplyView::Listed(self.list())),
            OperationView::Fetch(id) => (self, StoreReplyView::Fetched(self.fetch(id))),
            OperationView::Create(fields) => match self.create(fields) {
                (next, Ok(id)) => (next, StoreReplyView::Created(id)),
                (next, Err(e)) => (next, StoreReplyView::Failed(e)),
            },
            OperationView::Update(id, fields) => {
                let (next, done) = self.update(id, fields);
                (next, StoreReplyView::Updated(done))
            },
            OperationView::Delete(id) => {
                let (next, done) = self.delete(id);
                (next, StoreReplyView::Deleted(done))
            },
        }
    }

    /// In a well-formed table an id stands at one index only.
    pub proof fn lemma_position_unique(self, id: int, i: int)
        requires
            self.wf(),
            self.at(id, i),
        ensures
            self.holds(id),
            self.position(id) == i,
    {
        let k = self.position(id);
        assert(self.at(id, k));
        if k < i {
            assert(self.rows[k].id < self.rows[i].id);
        } else if i < k {
            assert(self.rows[i].id < self.rows[k].id);
        }
    }

    /// Every operation leaves a well-formed table well-formed.
    pub proof fn lemma_apply_wf(self, op: OperationView)
        requires
            self.wf(),
        ensures
            self.apply(op).0.wf(),
    {
        match op {
            OperationView::Create(fields) => {},
            OperationView::Update(id, fields) => {
                if self.holds(id) {
                    let k = self.position(id);
                    assert(self.at(id, k));
                }
            },
            OperationView::Delete(id) => {
                if self.holds(id) {
                    let k = self.position(id);
                    assert(self.at(id, k));
                    let next = self.delete(id).0;
                    assert forall|i: int, j: int| 0 <= i < j < next.rows.len() implies (
                    #[trigger] next.rows[i]).id < (#[trigger] next.rows[j]).id by {
                        let a = if i < k { i } else { i + 1 };
                        let b = if j < k { j } else { j + 1 };
                        assert(next.rows[i] == self.rows[a]);
                        assert(next.rows[j] == self.rows[b]);
                    }
                    assert forall|i: int| 0 <= i < next.rows.len() implies 1 <= (
                    #[trigger] next.rows[i]).id < next.next_id by {
                        let a = if i < k { i } else { i + 1 };
                        assert(next.rows[i] == self.rows[a]);
                    }
                }
            },
            _ => {},
        }
    }
}

/// A table of users in memory.
pub struct Table {
    rows: Vec<User>,
    next_id: u32,
}

impl View for Table {
    type V = TableView;

    closed spec fn view(&self) -> TableView {
        TableView { rows: rows_of(self.rows@), next_id: self.next_id as int }
    }
}

impl Table {
    /// The table is in a state that the operations can start from.
    pub open spec fn wf(&self) -> bool {
        self@.wf()
    }

    /// A table without rows. The first user gets the id 1.
    pub fn new() -> (r: Table)
        ensures
            r.wf(),
            r@ == TableView::empty(),
    {
        let table = Table { rows: Vec::new(), next_id: 1 };
        assert(table@.rows =~= Seq::<UserView>::empty());
        table
    }

    /// A table that holds `rows`, which must come with positive ids in
    /// strictly ascending order. The next new user gets the id after the
    /// last row's.
    pub fn from_rows(rows: Vec<User>) -> (r: Option<Table>)
        ensures
            match r {
                Some(table) => table.wf() && table@ == TableView::holding(rows_of(rows@)),
                None => !ascending_ids(rows_of(rows@)),
            },
    {
        let ghost all = rows_of(rows@);
        let mut last: i32 = 0;
        let mut i: usize = 0;
        while i < rows.len()
            invariant
                i <= rows.len(),
                all == rows_of(rows@),
                0 <= last,
                i == 0 ==> last == 0,
                i > 0 ==> last == all[i - 1].id,
                forall|k: int| 0 <= k < i ==> 1 <= (#[trigger] all[k]).id <= last,
                forall|k: int, l: int|
                    0 <= k < l < i ==> (#[trigger] all[k]).id < (#[trigger] all[l]).id,
            decreases rows.len() - i,
        {
            let id = rows[i].id;
            assert(all[i as int].id == id);
            if id <= last {
                proof {
                    if i > 0 {
                        assert(all[i - 1].id >= all[i as int].id);
                    }
                }
                return None;
            }
            last = id;
            i += 1;
        }
        let table = Table { rows, next_id: last as u32 + 1 };
        assert(table@.rows == all);
        Some(table)
    }

    /// The index of the row with the id `id`.
    fn locate(&self, id: i32) -> (r: Option<usize>)
        requires
            self.wf(),
        ensures
            match r {
                Some(i) => self@.holds(id as int) && self@.position(id as int) == i,
                None => !self@.holds(id as int),
            },
    {
        let mut i: usize = 0;
        while i < self.rows.len()
            invariant
                self.wf(),
                i <= self.rows.len(),
                forall|k: int| 0 <= k < i ==> !self@.at(id as int, k),
            decreases self.rows.len() - i,
        {
            if self.rows[i].id == id {
                proof {
                    assert(self@.rows[i as int] == self.rows@[i as int]@);
                    self@.lemma_position_unique(id as int, i as int);
                }
                return Some(i);
            }
            assert(self@.rows[i as int] == self.rows@[i as int]@);
            i += 1;
        }
        None
    }

    /// All users, in ascending order of id.
    pub fn list(&self) -> (r: Vec<User>)
        ensures
            rows_of(r@) == self@.list(),
    {
        duplicate_all(&self.rows)
    }

    /// The user under `id`.
    pub fn fetch(&self, id: i32) -> (r: Option<User>)
        requires
            self.wf(),
        ensures
            match r {
                Some(user) => self@.fetch(id as int) == Some(user@),
                None => self@.fetch(id as int) is None,
            },
    {
        match self.locate(id) {
            Some(i) => {
                assert(self@.rows[i as int] == self.rows@[i as int]@);
                Some(self.rows[i].duplicate())
            },
            None => None,
        }
    }

    /// Adds a user and returns the id it was given.
    pub fn create(&mut self, fields: UserFields) -> (r: Result<i32, StoreError>)
        requires
            old(self).wf(),
        ensures
            final(self).wf(),
            final(self)@ == old(self)@.create(fields@).0,
            match r {
                Ok(id) => old(self)@.create(fields@).1 == Ok::<int, StoreError>(id as int),
                Err(e) => old(self)@.create(fields@).1 == Err::<int, StoreError>(e),
            },
    {
        if self.next_id > 2147483647 {
            return Err(StoreError::Rejected);
        }
        let id = self.next_id as i32;
        self.rows.push(fields.with_id(id));
        self.next_id = self.next_id + 1;
        proof {
            assert(self@.rows =~= old(self)@.rows.push(fields@.with_id(id as int)));
            old(self)@.lemma_apply_wf(OperationView::Create(fields@));
        }
        Ok(id)
    }

    /// Replaces name and email of the user under `id`, and says whether
    /// there was such a user.
    pub fn update(&mut self, id: i32, fields: UserFields) -> (r: bool)
        requires
            old(self).wf(),
        ensures
            final(self).wf(),
            (final(self)@, r) == old(self)@.update(id as int, fields@),
    {
        match self.locate(id) {
            Some(i) => {
                self.rows.set(i, fields.with_id(id));
                proof {
                    assert(self@.rows =~= old(self)@.rows.update(
                        i as int,
                        fields@.with_id(id as int),
                    ));
                    old(self)@.lemma_apply_wf(OperationView::Update(id as int, fields@));
                }
                true
            },
            None => false,
        }
    }

    /// Removes the user under `id`, and says whether there was such a user.
    pub fn delete(&mut self, id: i32) -> (r: bool)
        requires
            old(self).wf(),
        ensures
            final(self).wf(),
            (final(self)@, r) == old(self)@.delete(id as int),
    {
        match self.locate(id) {
            Some(i) => {
                self.rows.remove(i);
                proof {
                    assert(self@.rows =~= old(self)@.rows.remove(i as int));
                    old(self)@.lemma_apply_wf(OperationView::Delete(id as int));
                }
                true
            },
            None => false,
        }
    }

    /// Carries out `op` and returns the answer to it.
    pub fn execute(&mut self, op: &Operation) -> (r: StoreReply)
        requires
            old(self).wf(),
        ensures
            final(self).wf(),
            (final(self)@, r@) == old(self)@.apply(op@),
    {
        match op {
            Operation::List => StoreReply::Listed(self.list()),
            Operation::Fetch(id) => StoreReply::Fetched(self.fetch(*id)),
            Operation::Create(fields) => match self.create(fields.duplicate()) {
                Ok(id) => StoreReply::Created(id),
                Err(e) => StoreReply::Failed(e),
            },
            Operation::Update(id, fields) => StoreReply::Updated(
                self.update(*id, fields.duplicate()),
            ),
            Operation::Delete(id) => StoreReply::Deleted(self.delete(*id)),
        }
    }
}

} // verus!
