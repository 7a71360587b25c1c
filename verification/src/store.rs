//! A verified model of the items table: rows in ascending id order, ids
//! assigned by a monotone counter, and the schema initializer as an
//! idempotent flag.
//!
//! The real service keeps this state in a relational database; the model
//! states, and the methods prove, exactly what each statement does to it.

use vstd::prelude::*;
use crate::json::models;
use crate::models::{CreateItem, Item, ItemModel};
use crate::timestamp::{timestamp_text, Timestamp};

verus! {

/// The id a persisted row carries.
pub open spec fn row_id(m: ItemModel) -> i32 {
    m.id->Some_0
}

/// The row holding `id`, if any; when several rows carry it, the latest one.
/// A well-formed store holds at most one.
pub open spec fn lookup(rows: Seq<ItemModel>, id: i32) -> Option<ItemModel>
    decreases rows.len(),
{
    if rows.len() == 0 {
        None
    } else if rows.last().id == Some(id) {
        Some(rows.last())
    } else {
        lookup(rows.drop_last(), id)
    }
}

/// The rows left after a delete of `id`: every row carrying `id` is gone,
/// the rest keep their order.
pub open spec fn remove_id(rows: Seq<ItemModel>, id: i32) -> Seq<ItemModel>
    decreases rows.len(),
{
    if rows.len() == 0 {
        Seq::<ItemModel>::empty()
    } else if rows.last().id == Some(id) {
        remove_id(rows.drop_last(), id)
    } else {
        remove_id(rows.drop_last(), id) + seq![rows.last()]
    }
}

/// Ids strictly ascending along the row order.
pub open spec fn ids_ascending(rows: Seq<ItemModel>) -> bool {
    forall|i: int, j: int|
        0 <= i < j < rows.len() ==> row_id(#[trigger] rows[i]) < row_id(#[trigger] rows[j])
}

/// Mathematical state of the store: whether the schema was initialized, the
/// persisted rows, and the next id the counter will hand out.
#[verifier::ext_equal]
pub struct StoreModel {
    pub initialized: bool,
    pub rows: Seq<ItemModel>,
    pub next_id: i32,
}

/// What the schema initializer does to the state: it marks the schema
/// present and touches nothing else.
pub open spec fn init_model(m: StoreModel) -> StoreModel {
    StoreModel { initialized: true, ..m }
}

/// Every row carries an assigned id below the counter, and the ids ascend
/// along the row order.
pub open spec fn store_wf(m: StoreModel) -> bool {
    &&& 1 <= m.next_id
    &&& forall|i: int|
        0 <= i < m.rows.len() ==> (#[trigger] m.rows[i]).id is Some && 1 <= row_id(m.rows[i])
            < m.next_id
    &&& ids_ascending(m.rows)
}

/// The items table together with its id counter.
pub struct ItemStore {
    initialized: bool,
    rows: Vec<Item>,
    next_id: i32,
}

impl View for ItemStore {
    type V = StoreModel;

    closed spec fn view(&self) -> StoreModel {
        StoreModel {
            initialized: self.initialized,
            rows: models(self.rows@),
            next_id: self.next_id,
        }
    }
}

impl ItemStore {
    /// An empty table whose counter starts at one.
    pub fn new() -> (s: ItemStore)
        ensures
            s@.rows.len() == 0,
            s@.next_id == 1,
            !s@.initialized,
            store_wf(s@),
    {
        let s = ItemStore { initialized: false, rows: Vec::new(), next_id: 1 };
        proof {
            assert(models(s.rows@) =~= Seq::<ItemModel>::empty());
        }
        s
    }

    /// Runs the idempotent schema statement: afterwards the schema exists,
    /// and the rows and the counter are exactly what they were.
    pub fn init_db(&mut self)
        ensures
            final(self)@ == init_model(old(self)@),
    {
        self.initialized = true;
        proof {
            assert(self@ =~= init_model(old(self)@));
        }
    }

    /// Inserts one row: the counter's id and the given creation instant are
    /// assigned, the payload's fields are stored as they came, and the new
    /// row goes behind every existing one.  The returned item is the row as
    /// persisted.  The new id is strictly greater than every id the store
    /// ever handed out before.
    pub fn insert(&mut self, req: CreateItem, now: Timestamp) -> (it: Item)
        requires
            store_wf(old(self)@),
            old(self)@.next_id < i32::MAX,
            now.wf(),
        ensures
            store_wf(final(self)@),
            it@.id == Some(old(self)@.next_id),
            it@.name == req@.name,
            it@.description == req@.description,
            it@.created_at == Some(timestamp_text(now)),
            final(self)@.rows == old(self)@.rows.push(it@),
            final(self)@.next_id == old(self)@.next_id + 1,
            final(self)@.initialized == old(self)@.initialized,
            forall|k: int|
                0 <= k < old(self)@.rows.len() ==> row_id(#[trigger] old(self)@.rows[k]) < row_id(
                    it@,
                ),
    {
        let id = self.next_id;
        self.next_id = self.next_id + 1;
        let created = now.render();
        let it = Item {
            id: Some(id),
            name: req.name,
            description: req.description,
            created_at: Some(created),
        };
        let stored = it.duplicate();
        self.rows.push(stored);
        proof {
            assert(self@.rows =~= old(self)@.rows.push(it@));
            assert forall|i: int|
                0 <= i < self@.rows.len() implies (#[trigger] self@.rows[i]).id is Some && 1
                <= row_id(self@.rows[i]) < self@.next_id by {
                if i < old(self)@.rows.len() {
                    assert(self@.rows[i] == old(self)@.rows[i]);
                }
            }
            assert forall|i: int, j: int|
                0 <= i < j < self@.rows.len() implies row_id(#[trigger] self@.rows[i]) < row_id(
                #[trigger] self@.rows[j]) by {
                if j < old(self)@.rows.len() {
                    assert(row_id(old(self)@.rows[i]) < row_id(old(self)@.rows[j]));
                } else {
                    assert(self@.rows[j] == it@);
                    assert(self@.rows[i] == old(self)@.rows[i]);
                }
            }
        }
        it
    }

    /// Fetches the row carrying `id`, if one does.
    pub fn get(&self, id: i32) -> (r: Option<Item>)
        ensures
            match r {
                Some(it) => lookup(self@.rows, id) == Some(it@),
                None => lookup(self@.rows, id) is None,
            },
    {
        let ghost m = self@.rows;
        let mut found: Option<Item> = None;
        let mut i: usize = 0;
        while i < self.rows.len()
            invariant
                m == self@.rows,
                m.len() == self.rows@.len(),
                i <= m.len(),
                match found {
                    Some(it) => lookup(m.take(i as int), id) == Some(it@),
                    None => lookup(m.take(i as int), id) is None,
                },
            decreases m.len() - i,
        {
            let row = &self.rows[i];
            let matches_id = match row.id {
                Some(x) => x == id,
                None => false,
            };
            if matches_id {
                found = Some(row.duplicate());
            }
            proof {
                assert(m.take(i + 1 as int).drop_last() =~= m.take(i as int));
                assert(m.take(i + 1 as int).last() == m[i as int]);
                assert(m[i as int] == self.rows@[i as int]@);
            }
            i = i + 1;
        }
        proof {
            assert(m.take(m.len() as int) =~= m);
        }
        found
    }

    /// Deletes the row carrying `id` and says whether one was there.  The
    /// remaining rows, the counter and the schema flag are untouched.
    pub fn delete(&mut self, id: i32) -> (deleted: bool)
        requires
            store_wf(old(self)@),
        ensures
            store_wf(final(self)@),
            deleted == (lookup(old(self)@.rows, id) is Some),
            final(self)@.rows == remove_id(old(self)@.rows, id),
            final(self)@.next_id == old(self)@.next_id,
            final(self)@.initialized == old(self)@.initialized,
    {
        let ghost m = old(self)@.rows;
        let mut kept: Vec<Item> = Vec::new();
        let mut found = false;
        let mut i: usize = 0;
        proof {
            assert(models(kept@) =~= Seq::<ItemModel>::empty());
        }
        while i < self.rows.len()
            invariant
                m == models(self.rows@),
                store_wf(old(self)@),
                old(self)@.rows == m,
                m.len() == self.rows@.len(),
                i <= m.len(),
                models(kept@) == remove_id(m.take(i as int), id),
                found == (lookup(m.take(i as int), id) is Some),
                forall|k: int, j: int|
                    0 <= k < models(kept@).len() && i <= j < m.len() ==> row_id(
                        #[trigger] models(kept@)[k],
                    ) < row_id(#[trigger] m[j]),
                forall|k: int|
                    0 <= k < models(kept@).len() ==> (#[trigger] models(kept@)[k]).id is Some && 1
                        <= row_id(models(kept@)[k]) < old(self)@.next_id,
                ids_ascending(models(kept@)),
            decreases m.len() - i,
        {
            let row = &self.rows[i];
            let matches_id = match row.id {
                Some(x) => x == id,
                None => false,
            };
            proof {
                assert(m[i as int] == self.rows@[i as int]@);
                assert(m.take(i + 1 as int).drop_last() =~= m.take(i as int));
                assert(m.take(i + 1 as int).last() == m[i as int]);
            }
            if matches_id {
                found = true;
            } else {
                let ghost kept_before = models(kept@);
                let copy = row.duplicate();
                kept.push(copy);
                proof {
                    assert(models(kept@) =~= kept_before.push(m[i as int]));
                    assert(models(kept@) =~= remove_id(m.take(i + 1 as int), id));
                }
            }
            i = i + 1;
        }
        proof {
            assert(m.take(m.len() as int) =~= m);
        }
        self.rows = kept;
        proof {
            assert(self@.rows =~= remove_id(m, id));
        }
        found
    }

    /// Hands out every row, in store order: ascending ids.
    pub fn list(&self) -> (r: Vec<Item>)
        ensures
            models(r@) == self@.rows,
    {
        let mut out: Vec<Item> = Vec::new();
        let mut i: usize = 0;
        proof {
            assert(models(out@) =~= self@.rows.take(0));
        }
        while i < self.rows.len()
            invariant
                i <= self.rows@.len(),
                self@.rows.len() == self.rows@.len(),
                models(out@) == self@.rows.take(i as int),
            decreases self.rows@.len() - i,
        {
            let ghost out_before = models(out@);
            let copy = self.rows[i].duplicate();
            out.push(copy);
            proof {
                assert(models(out@) =~= out_before.push(self@.rows[i as int]));
                assert(self@.rows.take(i + 1 as int) =~= self@.rows.take(i as int).push(
                    self@.rows[i as int],
                ));
            }
            i = i + 1;
        }
        proof {
            assert(self@.rows.take(self@.rows.len() as int) =~= self@.rows);
        }
        out
    }

    /// How many rows the table holds.
    pub fn count(&self) -> (n: usize)
        ensures
            n == self@.rows.len(),
    {
        self.rows.len()
    }
}

/// Initializing the schema twice is the same as initializing it once: the
/// second run changes nothing.
pub proof fn lemma_init_idempotent(m: StoreModel)
    ensures
        init_model(init_model(m)) == init_model(m),
{
    assert(init_model(init_model(m)) =~= init_model(m));
}

/// A row just created is found again under its id, with all its fields.
pub proof fn lemma_created_item_is_found(rows: Seq<ItemModel>, it: ItemModel, id: i32)
    requires
        it.id == Some(id),
    ensures
        lookup(rows.push(it), id) == Some(it),
{
    assert(rows.push(it).last() == it);
}

/// When no row carries `id`, a lookup finds nothing.
pub proof fn lemma_lookup_none_when_absent(rows: Seq<ItemModel>, id: i32)
    requires
        forall|k: int| 0 <= k < rows.len() ==> (#[trigger] rows[k]).id != Some(id),
    ensures
        lookup(rows, id) is None,
    decreases rows.len(),
{
    if rows.len() > 0 {
        lemma_lookup_none_when_absent(rows.drop_last(), id);
    }
}

/// Deleting an id no row carries leaves the table exactly as it was.
pub proof fn lemma_delete_absent_is_noop(rows: Seq<ItemModel>, id: i32)
    requires
        lookup(rows, id) is None,
    ensures
        remove_id(rows, id) == rows,
    decreases rows.len(),
{
    if rows.len() > 0 {
        lemma_delete_absent_is_noop(rows.drop_last(), id);
        assert(remove_id(rows, id) =~= rows);
    } else {
        assert(remove_id(rows, id) =~= rows);
    }
}

/// When the ids ascend and a row carries `id`, a delete removes exactly one
/// row.
pub proof fn lemma_delete_present_removes_one(rows: Seq<ItemModel>, id: i32)
    requires
        ids_ascending(rows),
        forall|k: int| 0 <= k < rows.len() ==> (#[trigger] rows[k]).id is Some,
        lookup(rows, id) is Some,
    ensures
        remove_id(rows, id).len() == rows.len() - 1,
    decreases rows.len(),
{
    let head = rows.drop_last();
    if rows.last().id == Some(id) {
        assert forall|k: int| 0 <= k < head.len() implies (#[trigger] head[k]).id != Some(id) by {
            assert(head[k] == rows[k]);
            assert(row_id(rows[k]) < row_id(rows[rows.len() - 1]));
        }
        lemma_lookup_none_when_absent(head, id);
        lemma_delete_absent_is_noop(head, id);
    } else {
        assert(ids_ascending(head)) by {
            assert forall|i: int, j: int| 0 <= i < j < head.len() implies row_id(
                #[trigger] head[i],
            ) < row_id(#[trigger] head[j]) by {
                assert(head[i] == rows[i]);
                assert(head[j] == rows[j]);
            }
        }
        lemma_delete_present_removes_one(head, id);
    }
}

/// After a delete of `id`, a lookup of `id` finds nothing.
pub proof fn lemma_lookup_after_delete(rows: Seq<ItemModel>, id: i32)
    ensures
        lookup(remove_id(rows, id), id) is None,
    decreases rows.len(),
{
    if rows.len() > 0 {
        lemma_lookup_after_delete(rows.drop_last(), id);
        if rows.last().id != Some(id) {
            let rest = remove_id(rows.drop_last(), id);
            assert(remove_id(rows, id) == rest + seq![rows.last()]);
            assert((rest + seq![rows.last()]).last() == rows.last());
            assert((rest + seq![rows.last()]).drop_last() =~= rest);
        }
    }
}

} // verus!
