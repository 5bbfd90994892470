//! The task store: a table of rows keyed by task id, with insert-or-replace,
//! delete, clear, count, a listing newest first, and retention cleanup.

use vstd::prelude::*;
use vstd::string::StringSliceAdditionalSpecFns;
use vstd::utf8::encode_utf8;
use crate::model::TaskRow;
use crate::text::{bytes_before, lemma_before_asymmetric, lemma_before_transitive, text_before};

verus! {

broadcast use vstd::seq_lib::group_to_multiset_ensures;

/// The bytes of a row's creation timestamp, by which rows are ordered.
pub open spec fn created_key(r: TaskRow) -> Seq<u8> {
    encode_utf8(r.created_at@)
}

/// Row `a` was not created strictly before row `b`.
pub open spec fn newer_or_same(a: TaskRow, b: TaskRow) -> bool {
    !bytes_before(created_key(a), created_key(b))
}

/// No two rows share an id.
pub open spec fn ids_unique(s: Seq<TaskRow>) -> bool {
    forall|i: int, j: int| 0 <= i < j < s.len() ==> s[i].id@ != s[j].id@
}

/// Some row has the id `id`.
pub open spec fn has_id(s: Seq<TaskRow>, id: Seq<char>) -> bool {
    exists|i: int| 0 <= i < s.len() && s[i].id@ == id
}

/// The place of the row with the id `id`.
pub open spec fn position_of(s: Seq<TaskRow>, id: Seq<char>) -> int {
    choose|i: int| 0 <= i < s.len() && s[i].id@ == id
}

/// The rows after storing `row`: it replaces the row with its id in place,
/// or comes last where there is none.
pub open spec fn upserted(s: Seq<TaskRow>, row: TaskRow) -> Seq<TaskRow> {
    if has_id(s, row.id@) {
        s.update(position_of(s, row.id@), row)
    } else {
        s.push(row)
    }
}

/// The rows without the one with the id `id`, if there is one.
pub open spec fn without_id(s: Seq<TaskRow>, id: Seq<char>) -> Seq<TaskRow> {
    if has_id(s, id) {
        s.remove(position_of(s, id))
    } else {
        s
    }
}

/// Every row is newer than, or as new as, every row after it.
pub open spec fn sorted_newest_first(s: Seq<TaskRow>) -> bool {
    forall|i: int, j: int| 0 <= i < j < s.len() ==> newer_or_same(s[i], s[j])
}

/// The number of rows that retention cleanup keeps out of `n`.
pub open spec fn kept_count(n: nat, max_keep: int) -> nat {
    if max_keep <= 0 {
        0
    } else if max_keep >= n {
        n
    } else {
        max_keep as nat
    }
}

/// The ids of a sequence of texts, as character sequences.
pub open spec fn id_texts(v: Seq<String>) -> Seq<Seq<char>> {
    v.map_values(|s: String| s@)
}

/// In a table with unique ids, the row at `i` is the one its id names.
pub proof fn lemma_position_of(s: Seq<TaskRow>, i: int)
    requires
        ids_unique(s),
        0 <= i < s.len(),
    ensures
        has_id(s, s[i].id@),
        position_of(s, s[i].id@) == i,
{
    assert(has_id(s, s[i].id@));
}

/// Removing a row keeps the ids unique.
pub proof fn lemma_remove_unique(s: Seq<TaskRow>, m: int)
    requires
        ids_unique(s),
        0 <= m < s.len(),
    ensures
        ids_unique(s.remove(m)),
        !has_id(s.remove(m), s[m].id@),
        forall|x: TaskRow| s.remove(m).contains(x) ==> s.contains(x),
        forall|x: TaskRow| s.contains(x) && x != s[m] ==> s.remove(m).contains(x),
{
    s.remove_ensures(m);
    let t = s.remove(m);
    assert forall|i: int, j: int| 0 <= i < j < t.len() implies t[i].id@ != t[j].id@ by {
        let a = if i < m { i } else { i + 1 };
        let b = if j < m { j } else { j + 1 };
        assert(t[i] == s[a] && t[j] == s[b]);
    }
    assert forall|k: int| 0 <= k < t.len() implies t[k].id@ != s[m].id@ by {
        let a = if k < m { k } else { k + 1 };
        assert(t[k] == s[a]);
    }
    assert forall|x: TaskRow| t.contains(x) implies s.contains(x) by {
        let k = choose|k: int| 0 <= k < t.len() && t[k] == x;
        let a = if k < m { k } else { k + 1 };
        assert(t[k] == s[a]);
    }
    assert forall|x: TaskRow| s.contains(x) && x != s[m] implies t.contains(x) by {
        let a = choose|a: int| 0 <= a < s.len() && s[a] == x;
        let k = if a < m { a } else { a - 1 };
        assert(t[k] == s[a]);
    }
}

/// The number of rows to keep when the caller names none.
pub const DEFAULT_KEEP: i64 = 100;

/// The retention limit: the one given, or `DEFAULT_KEEP` when none is.
pub fn keep_limit(max_tasks_to_keep: Option<i32>) -> (r: i64)
    ensures
        r == match max_tasks_to_keep {
            Some(m) => m as i64,
            None => DEFAULT_KEEP,
        },
{
    match max_tasks_to_keep {
        Some(m) => m as i64,
        None => DEFAULT_KEEP,
    }
}

/// Storing a row keeps the ids unique, and the row then stands in the table.
pub proof fn lemma_upserted_holds_row(s: Seq<TaskRow>, row: TaskRow)
    requires
        ids_unique(s),
    ensures
        ids_unique(upserted(s, row)),
        has_id(upserted(s, row), row.id@),
        upserted(s, row)[position_of(upserted(s, row), row.id@)] == row,
        upserted(s, row).contains(row),
{
    let u = upserted(s, row);
    if has_id(s, row.id@) {
        let p = position_of(s, row.id@);
        assert(u[p] == row);
        lemma_position_of(u, p);
    } else {
        assert(u[s.len() as int] == row);
        lemma_position_of(u, s.len() as int);
    }
}

/// Saving the same row twice leaves the table as saving it once: the count
/// is the same, and exactly one row carries its id.
pub proof fn lemma_save_idempotent(s: Seq<TaskRow>, row: TaskRow)
    requires
        ids_unique(s),
    ensures
        upserted(upserted(s, row), row) == upserted(s, row),
        upserted(upserted(s, row), row).len() == upserted(s, row).len(),
        has_id(upserted(s, row), row.id@),
        forall|i: int, j: int|
            0 <= i < upserted(s, row).len() && 0 <= j < upserted(s, row).len() && upserted(
                s,
                row,
            )[i].id@ == row.id@ && upserted(s, row)[j].id@ == row.id@ ==> i == j,
{
    lemma_upserted_holds_row(s, row);
    let u = upserted(s, row);
    assert(u.update(position_of(u, row.id@), row) =~= u);
}

/// After a row is saved, listing the table yields that row, field for field,
/// nested texts included.
pub proof fn lemma_saved_row_is_listed(s: Seq<TaskRow>, row: TaskRow, listed: Seq<TaskRow>)
    requires
        ids_unique(s),
        listed.to_multiset() == upserted(s, row).to_multiset(),
    ensures
        listed.contains(row),
{
    lemma_upserted_holds_row(s, row);
    assert(upserted(s, row).to_multiset().count(row) > 0);
    assert(listed.to_multiset().count(row) > 0);
}

/// Deleting an id that no row carries leaves the table as it was.
pub proof fn lemma_delete_missing(s: Seq<TaskRow>, id: Seq<char>)
    requires
        !has_id(s, id),
    ensures
        without_id(s, id) == s,
{
}

/// A durable-table model of the batch-task store, one row per task id.
pub struct SimpleDatabase {
    rows: Vec<TaskRow>,
}

impl View for SimpleDatabase {
    type V = Seq<TaskRow>;

    closed spec fn view(&self) -> Seq<TaskRow> {
        self.rows@
    }
}

impl SimpleDatabase {
    /// The store holds at most one row per id.
    pub open spec fn wf(&self) -> bool {
        ids_unique(self@)
    }

    /// An empty store.
    pub fn init_db() -> (r: Self)
        ensures
            r.wf(),
            r@ == Seq::<TaskRow>::empty(),
    {
        SimpleDatabase { rows: Vec::new() }
    }

    /// Builds a store from rows that hold at most one row per id.
    pub fn from_rows(rows: Vec<TaskRow>) -> (r: Option<Self>)
        ensures
            r is Some <==> ids_unique(rows@),
            r matches Some(d) ==> d@ == rows@,
    {
        let mut i: usize = 0;
        while i < rows.len()
            invariant
                i <= rows@.len(),
                forall|a: int, b: int| 0 <= a < b < rows@.len() && a < i ==> rows@[a].id@ != rows@[b].id@,
            decreases rows@.len() - i,
        {
            let mut j: usize = i + 1;
            while j < rows.len()
                invariant
                    i < rows@.len(),
                    i < j <= rows@.len(),
                    forall|a: int, b: int| 0 <= a < b < rows@.len() && a < i ==> rows@[a].id@ != rows@[b].id@,
                    forall|b: int| i < b < j ==> rows@[i as int].id@ != rows@[b].id@,
                decreases rows@.len() - j,
            {
                if rows[i].id == rows[j].id {
                    return None;
                }
                j = j + 1;
            }
            i = i + 1;
        }
        Some(SimpleDatabase { rows })
    }

    /// The place of the row with the id `id`.
    fn find(&self, id: &String) -> (r: Option<usize>)
        ensures
            match r {
                Some(i) => i < self@.len() && self@[i as int].id@ == id@,
                None => !has_id(self@, id@),
            },
    {
        let mut i: usize = 0;
        while i < self.rows.len()
            invariant
                i <= self@.len(),
                forall|k: int| 0 <= k < i ==> self@[k].id@ != id@,
            decreases self@.len() - i,
        {
            if self.rows[i].id == *id {
                return Some(i);
            }
            i = i + 1;
        }
        None
    }

    /// Stores `task`, replacing any row with the same id.
    pub fn save_batch_task(&mut self, task: TaskRow)
        requires
            old(self).wf(),
        ensures
            final(self).wf(),
            final(self)@ == upserted(old(self)@, task),
    {
        match self.find(&task.id) {
            Some(i) => {
                proof {
                    lemma_position_of(self@, i as int);
                }
                self.rows.set(i, task);
            },
            None => {
                self.rows.push(task);
            },
        }
    }

    /// Removes the row with the id `task_id`; nothing changes if there is none.
    pub fn delete_batch_task(&mut self, task_id: &str)
        requires
            old(self).wf(),
        ensures
            final(self).wf(),
            final(self)@ == without_id(old(self)@, task_id@),
    {
        let key = task_id.to_owned();
        match self.find(&key) {
            Some(i) => {
                proof {
                    lemma_position_of(self@, i as int);
                    lemma_remove_unique(self@, i as int);
                }
                self.rows.remove(i);
            },
            None => {},
        }
    }

    /// Removes every row.
    pub fn clear_batch_tasks(&mut self)
        ensures
            final(self).wf(),
            final(self)@ == Seq::<TaskRow>::empty(),
    {
        self.rows.clear();
    }

    /// The number of rows.
    pub fn get_task_count(&self) -> (r: usize)
        ensures
            r == self@.len(),
    {
        self.rows.len()
    }

    /// Every row, newest first.
    pub fn get_all_batch_tasks(&self) -> (r: Vec<TaskRow>)
        ensures
            r@.to_multiset() == self@.to_multiset(),
            sorted_newest_first(r@),
    {
        let mut out: Vec<TaskRow> = Vec::new();
        let mut i: usize = 0;
        while i < self.rows.len()
            invariant
                i <= self@.len(),
                out@.to_multiset() == self@.subrange(0, i as int).to_multiset(),
                sorted_newest_first(out@),
            decreases self@.len() - i,
        {
            let row = self.rows[i].duplicate();
            let mut p: usize = 0;
            while p < out.len() && !text_before(out[p].created_at.as_str(), row.created_at.as_str())
                invariant
                    p <= out@.len(),
                    forall|k: int| 0 <= k < p ==> newer_or_same(out@[k], row),
                decreases out@.len() - p,
            {
                p = p + 1;
            }
            proof {
                let s = out@;
                let t = s.insert(p as int, row);
                s.insert_ensures(p as int, row);
                assert forall|a: int, b: int| 0 <= a < b < t.len() implies newer_or_same(
                    t[a],
                    t[b],
                ) by {
                    if b < p {
                        assert(t[a] == s[a] && t[b] == s[b]);
                        assert(newer_or_same(s[a], s[b]));
                    } else if a > p {
                        assert(t[a] == s[a - 1] && t[b] == s[b - 1]);
                        assert(newer_or_same(s[a - 1], s[b - 1]));
                    } else if b == p {
                        assert(t[a] == s[a] && t[b] == row);
                        assert(newer_or_same(s[a], row));
                    } else if a == p {
                        assert(t[b] == s[b - 1]);
                        assert(bytes_before(created_key(s[p as int]), created_key(row)));
                        if b - 1 == p {
                            lemma_before_asymmetric(created_key(s[p as int]), created_key(row), 0);
                        } else if bytes_before(created_key(row), created_key(s[b - 1])) {
                            assert(newer_or_same(s[p as int], s[b - 1]));
                            lemma_before_transitive(
                                created_key(s[p as int]),
                                created_key(row),
                                created_key(s[b - 1]),
                                0,
                            );
                        }
                        assert(t[a] == row);
                        assert(newer_or_same(row, s[b - 1]));
                    } else {
                        assert(t[a] == s[a] && t[b] == s[b - 1]);
                        assert(newer_or_same(s[a], s[b - 1]));
                    }
                }
                assert(self@.subrange(0, i as int + 1) =~= self@.subrange(0, i as int).push(
                    self@[i as int],
                ));
            }
            out.insert(p, row);
            i = i + 1;
        }
        proof {
            assert(self@.subrange(0, self@.len() as int) =~= self@);
        }
        out
    }

    /// The place of a row created no later than every other row.
    fn oldest(&self) -> (m: usize)
        requires
            self@.len() > 0,
        ensures
            m < self@.len(),
            forall|q: int| 0 <= q < self@.len() ==> newer_or_same(self@[q], self@[m as int]),
    {
        let mut m: usize = 0;
        let mut k: usize = 1;
        proof {
            if bytes_before(created_key(self@[0]), created_key(self@[0])) {
                lemma_before_asymmetric(created_key(self@[0]), created_key(self@[0]), 0);
            }
        }
        while k < self.rows.len()
            invariant
                0 < self@.len(),
                m < k <= self@.len(),
                forall|q: int| 0 <= q < k ==> newer_or_same(self@[q], self@[m as int]),
            decreases self@.len() - k,
        {
            if text_before(self.rows[k].created_at.as_str(), self.rows[m].created_at.as_str()) {
                proof {
                    let km = created_key(self@[k as int]);
                    let mm = created_key(self@[m as int]);
                    assert forall|q: int| 0 <= q <= k implies newer_or_same(
                        self@[q],
                        self@[k as int],
                    ) by {
                        let qm = created_key(self@[q]);
                        if q == k {
                            lemma_before_asymmetric(km, mm, 0);
                            if bytes_before(km, km) {
                                lemma_before_asymmetric(km, km, 0);
                            }
                        } else if bytes_before(qm, km) {
                            lemma_before_transitive(qm, km, mm, 0);
                        }
                    }
                }
                m = k;
            }
            k = k + 1;
        }
        m
    }

    /// Keeps the `max_keep` newest rows (none when `max_keep` is zero or
    /// negative, all when it is at least the count), removes the rest, and
    /// returns the ids it removed.
    pub fn cleanup_old_tasks(&mut self, max_keep: i64) -> (removed: Vec<String>)
        requires
            old(self).wf(),
        ensures
            final(self).wf(),
            final(self)@.len() == kept_count(old(self)@.len(), max_keep as int),
            removed@.len() + final(self)@.len() == old(self)@.len(),
            forall|x: TaskRow| final(self)@.contains(x) ==> old(self)@.contains(x),
            forall|j: int|
                0 <= j < removed@.len() ==> has_id(old(self)@, #[trigger] removed@[j]@) && !has_id(
                    final(self)@,
                    removed@[j]@,
                ),
            forall|i: int|
                0 <= i < old(self)@.len() ==> final(self)@.contains(#[trigger] old(self)@[i]) || (
                id_texts(removed@).contains(old(self)@[i].id@) && forall|c: TaskRow|
                    final(self)@.contains(c) ==> newer_or_same(c, old(self)@[i])),
    {
        let ghost start = self@;
        let n = self.rows.len();
        let keep: usize = if max_keep <= 0 {
            0
        } else if max_keep as u128 >= n as u128 {
            n
        } else {
            max_keep as usize
        };
        let mut removed: Vec<String> = Vec::new();
        let ghost mut gone: Seq<TaskRow> = Seq::empty();
        while self.rows.len() > keep
            invariant
                ids_unique(self@),
                keep == kept_count(start.len(), max_keep as int),
                keep <= self@.len(),
                self@.len() + gone.len() == start.len(),
                removed@.len() == gone.len(),
                forall|j: int| 0 <= j < gone.len() ==> #[trigger] removed@[j]@ == gone[j].id@,
                forall|x: TaskRow| self@.contains(x) ==> start.contains(x),
                forall|j: int|
                    0 <= j < gone.len() ==> start.contains(#[trigger] gone[j]) && !has_id(
                        self@,
                        gone[j].id@,
                    ),
                forall|i: int|
                    0 <= i < start.len() ==> self@.contains(#[trigger] start[i]) || gone.contains(
                        start[i],
                    ),
                forall|g: TaskRow, c: TaskRow|
                    gone.contains(g) && self@.contains(c) ==> newer_or_same(c, g),
            decreases self@.len(),
        {
            let m = self.oldest();
            let ghost before = self@;
            let ghost row = self@[m as int];
            proof {
                lemma_remove_unique(before, m as int);
            }
            let taken = self.rows.remove(m);
            proof {
                assert forall|c: TaskRow| self@.contains(c) implies newer_or_same(c, row) by {
                    let q = choose|q: int| 0 <= q < before.len() && before[q] == c;
                }
                assert forall|j: int| 0 <= j < gone.len() implies !has_id(self@, gone[j].id@) by {
                    if has_id(self@, gone[j].id@) {
                        let q = choose|q: int| 0 <= q < self@.len() && self@[q].id@ == gone[j].id@;
                        assert(before.contains(self@[q]));
                    }
                }
                assert forall|i: int| 0 <= i < start.len() implies self@.contains(start[i])
                    || gone.push(row).contains(start[i]) by {
                    if !gone.contains(start[i]) && start[i] != row {
                        assert(before.contains(start[i]));
                    } else if gone.contains(start[i]) {
                        let j = choose|j: int| 0 <= j < gone.len() && gone[j] == start[i];
                        assert(gone.push(row)[j] == start[i]);
                    } else {
                        assert(gone.push(row)[gone.len() as int] == row);
                    }
                }
                assert forall|g: TaskRow, c: TaskRow|
                    gone.push(row).contains(g) && self@.contains(c) implies newer_or_same(c, g) by {
                    let j = choose|j: int| 0 <= j < gone.len() + 1 && gone.push(row)[j] == g;
                    if j < gone.len() {
                        assert(gone.contains(g));
                    }
                }
                gone = gone.push(row);
            }
            removed.push(taken.id);
        }
        proof {
            assert forall|i: int| 0 <= i < start.len() && !self@.contains(start[i]) implies id_texts(
                removed@,
            ).contains(start[i].id@) by {
                let j = choose|j: int| 0 <= j < gone.len() && gone[j] == start[i];
                assert(id_texts(removed@)[j] == removed@[j]@);
            }
        }
        removed
    }
}

} // verus!
