//! The record table: prompts keyed by id, listed newest first.

use crate::prompt::{Prompt, PromptView};
use crate::prompt_map::{map_entries, map_insert, map_new};
use crate::text::str_eq;
use indexmap::IndexMap;
use vstd::prelude::*;

verus! {

/// Whether a row created at `a` is listed no later than one created at `b`:
/// later creation times come first, rows without one come last.
pub open spec fn ranks_before(a: Option<i64>, b: Option<i64>) -> bool {
    match (a, b) {
        (Some(x), Some(y)) => x >= y,
        (Some(_), None) => true,
        (None, Some(_)) => false,
        (None, None) => true,
    }
}

/// Whether some row has the id `id`.
pub open spec fn has_id(rows: Seq<PromptView>, id: Seq<char>) -> bool {
    exists|i: int| 0 <= i < rows.len() && (#[trigger] rows[i]).id == id
}

/// No two rows share an id.
pub open spec fn distinct_ids(rows: Seq<PromptView>) -> bool {
    forall|i: int, j: int|
        0 <= i < j < rows.len() ==> (#[trigger] rows[i]).id != (#[trigger] rows[j]).id
}

/// Rows are in listing order.
pub open spec fn newest_first(rows: Seq<PromptView>) -> bool {
    forall|i: int, j: int|
        0 <= i <= j < rows.len() ==> ranks_before(
            (#[trigger] rows[i]).created_at,
            (#[trigger] rows[j]).created_at,
        )
}

/// What holds of every table: ids are unique and rows are in listing order.
pub open spec fn table_wf(rows: Seq<PromptView>) -> bool {
    distinct_ids(rows) && newest_first(rows)
}

/// The position of the row with id `id`, where there is one.
pub open spec fn position(rows: Seq<PromptView>, id: Seq<char>) -> int {
    choose|i: int| 0 <= i < rows.len() && (#[trigger] rows[i]).id == id
}

/// The row with id `id`, where there is one.
pub open spec fn row_of(rows: Seq<PromptView>, id: Seq<char>) -> PromptView {
    rows[position(rows, id)]
}

/// The table without the row of id `id`.
pub open spec fn without(rows: Seq<PromptView>, id: Seq<char>) -> Seq<PromptView> {
    if has_id(rows, id) {
        rows.remove(position(rows, id))
    } else {
        rows
    }
}

/// Whether `k` is where a row created at `created_at` goes: after every row
/// that ranks before it, ahead of every other.
pub open spec fn is_slot(rows: Seq<PromptView>, created_at: Option<i64>, k: int) -> bool {
    &&& 0 <= k <= rows.len()
    &&& forall|i: int| 0 <= i < k ==> ranks_before((#[trigger] rows[i]).created_at, created_at)
    &&& forall|i: int|
        k <= i < rows.len() ==> !ranks_before((#[trigger] rows[i]).created_at, created_at)
}

/// Where a row created at `created_at` goes.
pub open spec fn slot(rows: Seq<PromptView>, created_at: Option<i64>) -> int {
    choose|k: int| is_slot(rows, created_at, k)
}

/// The table after `p` is inserted, or put in place of the row with its id.
pub open spec fn saved(rows: Seq<PromptView>, p: PromptView) -> Seq<PromptView> {
    let rest = without(rows, p.id);
    rest.insert(slot(rest, p.created_at), p)
}

/// The table with no row enabled.
pub open spec fn all_disabled(rows: Seq<PromptView>) -> Seq<PromptView> {
    Seq::new(rows.len(), |i: int| PromptView { enabled: false, ..rows[i] })
}

/// The table with the row of id `id` enabled, if there is one.
pub open spec fn with_enabled(rows: Seq<PromptView>, id: Seq<char>) -> Seq<PromptView> {
    Seq::new(
        rows.len(),
        |i: int|
            if rows[i].id == id {
                PromptView { enabled: true, ..rows[i] }
            } else {
                rows[i]
            },
    )
}

/// The entries under which a table is listed: each row under its id.
pub open spec fn listing(rows: Seq<PromptView>) -> Seq<(Seq<char>, PromptView)> {
    Seq::new(rows.len(), |i: int| (rows[i].id, rows[i]))
}

/// The values of a sequence of prompts.
pub open spec fn views(rows: Seq<Prompt>) -> Seq<PromptView> {
    Seq::new(rows.len(), |i: int| rows[i]@)
}

/// In a table with unique ids, the row found under an id is the only one.
pub proof fn lemma_position(rows: Seq<PromptView>, id: Seq<char>, i: int)
    requires
        distinct_ids(rows),
        0 <= i < rows.len(),
        rows[i].id == id,
    ensures
        has_id(rows, id),
        position(rows, id) == i,
{
}

/// The slot of a creation time in an ordered table is unique.
pub proof fn lemma_slot(rows: Seq<PromptView>, created_at: Option<i64>, k: int)
    requires
        is_slot(rows, created_at, k),
    ensures
        slot(rows, created_at) == k,
{
    let c = slot(rows, created_at);
    assert(is_slot(rows, created_at, c));
    if c < k {
        assert(ranks_before(rows[c].created_at, created_at));
    }
    if k < c {
        assert(ranks_before(rows[k].created_at, created_at));
    }
}

/// Removing a row keeps a table well-formed, and the id is then absent.
pub proof fn lemma_without(rows: Seq<PromptView>, id: Seq<char>)
    requires
        table_wf(rows),
    ensures
        table_wf(without(rows, id)),
        !has_id(without(rows, id), id),
        forall|other: Seq<char>|
            other != id ==> (has_id(without(rows, id), other) <==> has_id(rows, other)),
        forall|other: Seq<char>|
            other != id && has_id(rows, other) ==> row_of(without(rows, id), other) == row_of(
                rows,
                other,
            ),
{
    let rest = without(rows, id);
    if has_id(rows, id) {
        let p = position(rows, id);
        assert forall|i: int, j: int| 0 <= i < j < rest.len() implies (#[trigger] rest[i]).id != (
        #[trigger] rest[j]).id by {
            let a = if i < p { i } else { i + 1 };
            let b = if j < p { j } else { j + 1 };
            assert(rest[i] == rows[a]);
            assert(rest[j] == rows[b]);
        }
        assert forall|i: int, j: int| 0 <= i <= j < rest.len() implies ranks_before(
            (#[trigger] rest[i]).created_at,
            (#[trigger] rest[j]).created_at,
        ) by {
            let a = if i < p { i } else { i + 1 };
            let b = if j < p { j } else { j + 1 };
            assert(rest[i] == rows[a]);
            assert(rest[j] == rows[b]);
        }
        if has_id(rest, id) {
            let i = position(rest, id);
            let a = if i < p { i } else { i + 1 };
            assert(rest[i] == rows[a]);
            assert(rows[a].id == rows[p].id);
        }
    }
    assert forall|other: Seq<char>| other != id implies (has_id(rest, other) <==> has_id(
        rows,
        other,
    )) && (has_id(rows, other) ==> row_of(rest, other) == row_of(rows, other)) by {
        if has_id(rows, id) {
            let p = position(rows, id);
            if has_id(rows, other) {
                let a = position(rows, other);
                let i = if a < p { a } else { a - 1 };
                assert(rest[i] == rows[a]);
                lemma_position(rest, other, i);
            }
            if has_id(rest, other) {
                let i = position(rest, other);
                let a = if i < p { i } else { i + 1 };
                assert(rest[i] == rows[a]);
            }
        }
    }
}

/// An ordered table has a slot for every creation time.
pub proof fn lemma_slot_exists(rows: Seq<PromptView>, created_at: Option<i64>)
    requires
        newest_first(rows),
    ensures
        is_slot(rows, created_at, slot(rows, created_at)),
    decreases rows.len(),
{
    if rows.len() == 0 {
        assert(is_slot(rows, created_at, 0));
    } else if !ranks_before(rows[0].created_at, created_at) {
        assert forall|i: int| 0 <= i < rows.len() implies !ranks_before(
            (#[trigger] rows[i]).created_at,
            created_at,
        ) by {
            assert(ranks_before(rows[0].created_at, rows[i].created_at));
        }
        assert(is_slot(rows, created_at, 0));
    } else {
        let tail = rows.drop_first();
        assert forall|i: int, j: int| 0 <= i <= j < tail.len() implies ranks_before(
            (#[trigger] tail[i]).created_at,
            (#[trigger] tail[j]).created_at,
        ) by {
            assert(tail[i] == rows[i + 1]);
            assert(tail[j] == rows[j + 1]);
        }
        lemma_slot_exists(tail, created_at);
        let k = slot(tail, created_at);
        assert forall|i: int| 0 <= i < k + 1 implies ranks_before(
            (#[trigger] rows[i]).created_at,
            created_at,
        ) by {
            if i > 0 {
                assert(rows[i] == tail[i - 1]);
            }
        }
        assert forall|i: int| k + 1 <= i < rows.len() implies !ranks_before(
            (#[trigger] rows[i]).created_at,
            created_at,
        ) by {
            assert(rows[i] == tail[i - 1]);
        }
        assert(is_slot(rows, created_at, k + 1));
    }
}

/// Saving a row keeps a table well-formed; the row is then the one under its
/// id, and every other row stays as it was.
pub proof fn lemma_saved(rows: Seq<PromptView>, p: PromptView)
    requires
        table_wf(rows),
    ensures
        table_wf(saved(rows, p)),
        has_id(saved(rows, p), p.id),
        row_of(saved(rows, p), p.id) == p,
        saved(rows, p).len() == if has_id(rows, p.id) {
            rows.len()
        } else {
            rows.len() + 1
        },
        forall|other: Seq<char>|
            other != p.id ==> (has_id(saved(rows, p), other) <==> has_id(rows, other)),
        forall|other: Seq<char>|
            other != p.id && has_id(rows, other) ==> row_of(saved(rows, p), other) == row_of(
                rows,
                other,
            ),
{
    let rest = without(rows, p.id);
    lemma_without(rows, p.id);
    lemma_slot_exists(rest, p.created_at);
    let k = slot(rest, p.created_at);
    let next = saved(rows, p);
    assert(next == rest.insert(k, p));
    assert(next[k] == p);
    assert forall|i: int| 0 <= i < next.len() && i != k implies #[trigger] next[i] == rest[if i
        < k {
        i
    } else {
        i - 1
    }] by {}
    assert forall|i: int, j: int| 0 <= i < j < next.len() implies (#[trigger] next[i]).id != (
    #[trigger] next[j]).id by {
        let a = if i < k { i } else { i - 1 };
        let b = if j < k { j } else { j - 1 };
        if i != k {
            assert(next[i] == rest[a]);
        }
        if j != k {
            assert(next[j] == rest[b]);
        }
    }
    assert forall|i: int, j: int| 0 <= i <= j < next.len() implies ranks_before(
        (#[trigger] next[i]).created_at,
        (#[trigger] next[j]).created_at,
    ) by {
        let a = if i < k { i } else { i - 1 };
        let b = if j < k { j } else { j - 1 };
        if i != k {
            assert(next[i] == rest[a]);
        }
        if j != k {
            assert(next[j] == rest[b]);
        }
    }
    lemma_position(next, p.id, k);
    assert forall|other: Seq<char>| other != p.id implies (has_id(next, other) <==> has_id(
        rows,
        other,
    )) && (has_id(rows, other) ==> row_of(next, other) == row_of(rows, other)) by {
        if has_id(rest, other) {
            let a = position(rest, other);
            let i = if a < k { a } else { a + 1 };
            assert(next[i] == rest[a]);
            lemma_position(next, other, i);
        }
        if has_id(next, other) {
            let i = position(next, other);
            let a = if i < k { i } else { i - 1 };
            assert(next[i] == rest[a]);
        }
    }
}

/// Whether a row created at `a` is listed no later than one created at `b`.
fn listed_before(a: Option<i64>, b: Option<i64>) -> (r: bool)
    ensures
        r == ranks_before(a, b),
{
    match (a, b) {
        (Some(x), Some(y)) => x >= y,
        (Some(_), None) => true,
        (None, Some(_)) => false,
        (None, None) => true,
    }
}

/// The index of the row with id `id`.
fn find_row(rows: &Vec<Prompt>, id: &str) -> (r: Option<usize>)
    ensures
        match r {
            Some(i) => i < rows.len() && rows[i as int]@.id == id@,
            None => !has_id(views(rows@), id@),
        },
{
    let mut i: usize = 0;
    while i < rows.len()
        invariant
            i <= rows.len(),
            forall|j: int| 0 <= j < i ==> (#[trigger] rows[j])@.id != id@,
        decreases rows.len() - i,
    {
        if str_eq(rows[i].id.as_str(), id) {
            return Some(i);
        }
        i += 1;
    }
    proof {
        let model = views(rows@);
        assert forall|j: int| 0 <= j < model.len() implies (#[trigger] model[j]).id != id@ by {
            assert(model[j] == rows[j]@);
        }
    }
    None
}

/// The index at which a row created at `created_at` is to be inserted.
fn find_slot(rows: &Vec<Prompt>, created_at: Option<i64>) -> (k: usize)
    requires
        newest_first(views(rows@)),
    ensures
        is_slot(views(rows@), created_at, k as int),
{
    let ghost model = views(rows@);
    let mut k: usize = 0;
    while k < rows.len() && listed_before(rows[k].created_at, created_at)
        invariant
            k <= rows.len(),
            model == views(rows@),
            forall|i: int| 0 <= i < k ==> ranks_before((#[trigger] model[i]).created_at, created_at),
        decreases rows.len() - k,
    {
        assert(model[k as int] == rows[k as int]@);
        k += 1;
    }
    proof {
        if k < rows.len() {
            assert(model[k as int] == rows[k as int]@);
            assert forall|i: int| k <= i < model.len() implies !ranks_before(
                (#[trigger] model[i]).created_at,
                created_at,
            ) by {
                assert(ranks_before(model[k as int].created_at, model[i].created_at));
            }
        }
    }
    k
}

/// A copy of `p` with its flag set to `enabled`.
fn with_flag(p: &Prompt, enabled: bool) -> (r: Prompt)
    ensures
        r@ == (PromptView { enabled, ..p@ }),
{
    let mut r = p.clone();
    r.enabled = enabled;
    r
}

/// The table of prompts, keyed by id and kept in listing order: newest
/// first, rows without a creation time last, and among rows of one creation
/// time the one saved first.
pub struct Database {
    rows: Vec<Prompt>,
}

impl View for Database {
    type V = Seq<PromptView>;

    closed spec fn view(&self) -> Seq<PromptView> {
        views(self.rows@)
    }
}

impl Database {
    /// What every table keeps: unique ids and listing order.
    #[verifier::type_invariant]
    pub open spec fn inv(self) -> bool {
        table_wf(self@)
    }

    /// An empty table.
    pub fn new() -> (db: Database)
        ensures
            db@ == Seq::<PromptView>::empty(),
    {
        let db = Database { rows: Vec::new() };
        assert(db@ =~= Seq::<PromptView>::empty());
        db
    }

    /// All rows in listing order, each under its id.
    pub fn get_prompts(&self) -> (map: IndexMap<String, Prompt>)
        ensures
            map_entries(map) == listing(self@),
            table_wf(self@),
    {
        proof {
            use_type_invariant(self);
        }
        let ghost model = views(self.rows@);
        let mut map = map_new();
        let mut i: usize = 0;
        while i < self.rows.len()
            invariant
                i <= self.rows.len(),
                model == views(self.rows@),
                distinct_ids(model),
                map_entries(map) == listing(model).take(i as int),
            decreases self.rows.len() - i,
        {
            let row = self.rows[i].clone();
            let key = row.id.clone();
            proof {
                let entries = map_entries(map);
                assert(model[i as int] == self.rows[i as int]@);
                assert forall|j: int| 0 <= j < entries.len() implies (#[trigger] entries[j]).0
                    != key@ by {
                    assert(entries[j] == listing(model)[j]);
                    assert(model[j].id != model[i as int].id);
                }
                assert(listing(model).take(i as int).push((key@, row@)) =~= listing(model).take(
                    i + 1,
                ));
            }
            map_insert(&mut map, key, row);
            i += 1;
        }
        assert(listing(model).take(i as int) =~= listing(model));
        map
    }

    /// Inserts `prompt`, or puts it in place of the row with its id.
    pub fn save_prompt(&mut self, prompt: &Prompt)
        ensures
            final(self)@ == saved(old(self)@, prompt@),
            table_wf(final(self)@),
    {
        proof {
            use_type_invariant(&*self);
        }
        let ghost before = self@;
        let mut rows: Vec<Prompt> = Vec::new();
        std::mem::swap(&mut rows, &mut self.rows);
        assert(views(rows@) == before);
        match find_row(&rows, prompt.id.as_str()) {
            Some(i) => {
                proof {
                    assert(before[i as int] == rows[i as int]@);
                    lemma_position(before, prompt@.id, i as int);
                }
                rows.remove(i);
                assert(views(rows@) =~= before.remove(i as int));
            },
            None => {},
        }
        proof {
            lemma_without(before, prompt@.id);
            assert(views(rows@) == without(before, prompt@.id));
        }
        let k = find_slot(&rows, prompt.created_at);
        let ghost rest = views(rows@);
        proof {
            lemma_slot(rest, prompt@.created_at, k as int);
            lemma_saved(before, prompt@);
        }
        rows.insert(k, prompt.clone());
        assert(views(rows@) =~= rest.insert(k as int, prompt@));
        self.rows = rows;
    }

    /// Removes the row with id `id`, if there is one.
    pub fn delete_prompt(&mut self, id: &str)
        ensures
            final(self)@ == without(old(self)@, id@),
            table_wf(final(self)@),
    {
        proof {
            use_type_invariant(&*self);
        }
        let ghost before = self@;
        let mut rows: Vec<Prompt> = Vec::new();
        std::mem::swap(&mut rows, &mut self.rows);
        assert(views(rows@) == before);
        match find_row(&rows, id) {
            Some(i) => {
                proof {
                    assert(before[i as int] == rows[i as int]@);
                    lemma_position(before, id@, i as int);
                }
                rows.remove(i);
                assert(views(rows@) =~= before.remove(i as int));
            },
            None => {},
        }
        proof {
            lemma_without(before, id@);
        }
        self.rows = rows;
    }

    /// Clears the flag of every row.
    pub fn disable_all_prompts(&mut self)
        ensures
            final(self)@ == all_disabled(old(self)@),
            table_wf(final(self)@),
    {
        proof {
            use_type_invariant(&*self);
        }
        let ghost before = self@;
        let mut rows: Vec<Prompt> = Vec::new();
        let mut i: usize = 0;
        while i < self.rows.len()
            invariant
                i <= self.rows.len(),
                before == views(self.rows@),
                views(rows@) == all_disabled(before).take(i as int),
            decreases self.rows.len() - i,
        {
            let row = with_flag(&self.rows[i], false);
            proof {
                assert(before[i as int] == self.rows[i as int]@);
                assert(views(rows@).push(row@) =~= all_disabled(before).take(i + 1));
            }
            rows.push(row);
            assert(views(rows@) =~= all_disabled(before).take(i + 1));
            i += 1;
        }
        assert(all_disabled(before).take(i as int) =~= all_disabled(before));
        proof {
            lemma_all_disabled(before);
        }
        self.rows = rows;
    }

    /// Sets the flag of the row with id `id`, if there is one. Other rows
    /// keep their flags.
    pub fn enable_prompt(&mut self, id: &str)
        ensures
            final(self)@ == with_enabled(old(self)@, id@),
            table_wf(final(self)@),
    {
        proof {
            use_type_invariant(&*self);
        }
        let ghost before = self@;
        let mut rows: Vec<Prompt> = Vec::new();
        let mut i: usize = 0;
        while i < self.rows.len()
            invariant
                i <= self.rows.len(),
                before == views(self.rows@),
                views(rows@) == with_enabled(before, id@).take(i as int),
            decreases self.rows.len() - i,
        {
            let row = if str_eq(self.rows[i].id.as_str(), id) {
                with_flag(&self.rows[i], true)
            } else {
                self.rows[i].clone()
            };
            proof {
                assert(before[i as int] == self.rows[i as int]@);
                assert(views(rows@).push(row@) =~= with_enabled(before, id@).take(i + 1));
            }
            rows.push(row);
            assert(views(rows@) =~= with_enabled(before, id@).take(i + 1));
            i += 1;
        }
        assert(with_enabled(before, id@).take(i as int) =~= with_enabled(before, id@));
        proof {
            lemma_with_enabled(before, id@);
        }
        self.rows = rows;
    }
}

/// Clearing the flags keeps a table well-formed, its ids and its order.
pub proof fn lemma_all_disabled(rows: Seq<PromptView>)
    requires
        table_wf(rows),
    ensures
        table_wf(all_disabled(rows)),
        forall|id: Seq<char>| has_id(all_disabled(rows), id) <==> has_id(rows, id),
        forall|id: Seq<char>|
            has_id(rows, id) ==> row_of(all_disabled(rows), id) == (PromptView {
                enabled: false,
                ..row_of(rows, id)
            }),
{
    let next = all_disabled(rows);
    assert forall|id: Seq<char>| (has_id(next, id) <==> has_id(rows, id)) && (has_id(rows, id)
        ==> row_of(next, id) == (PromptView { enabled: false, ..row_of(rows, id) })) by {
        if has_id(rows, id) {
            let i = position(rows, id);
            assert(next[i].id == id);
            lemma_position(next, id, i);
        }
        if has_id(next, id) {
            let i = position(next, id);
            assert(rows[i].id == id);
        }
    }
}

/// Setting one flag keeps a table well-formed, its ids and its order.
pub proof fn lemma_with_enabled(rows: Seq<PromptView>, id: Seq<char>)
    requires
        table_wf(rows),
    ensures
        table_wf(with_enabled(rows, id)),
        forall|other: Seq<char>| has_id(with_enabled(rows, id), other) <==> has_id(rows, other),
        forall|other: Seq<char>|
            has_id(rows, other) ==> row_of(with_enabled(rows, id), other) == if other == id {
                PromptView { enabled: true, ..row_of(rows, other) }
            } else {
                row_of(rows, other)
            },
{
    let next = with_enabled(rows, id);
    assert forall|other: Seq<char>| (has_id(next, other) <==> has_id(rows, other)) && (has_id(
        rows,
        other,
    ) ==> row_of(next, other) == if other == id {
        PromptView { enabled: true, ..row_of(rows, other) }
    } else {
        row_of(rows, other)
    }) by {
        if has_id(rows, other) {
            let i = position(rows, other);
            assert(next[i].id == other);
            lemma_position(next, other, i);
        }
        if has_id(next, other) {
            let i = position(next, other);
            assert(rows[i].id == other);
        }
    }
}

} // verus!
