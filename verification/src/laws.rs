//! What holds of the operations, proved from their definitions.

use crate::database::{
    all_disabled, has_id, is_slot, lemma_all_disabled, lemma_position, lemma_saved, lemma_slot,
    lemma_with_enabled, lemma_without, listing, position, row_of, saved, table_wf, without,
};
use crate::error::AppErrorView;
use crate::prompt::PromptView;
use crate::prompt_file::{read_result, PromptFileView};
use crate::protocol::{
    activation, any_enabled, apply_effect, at_most_one_enabled, auto_imported_prompt,
    backfilled, backup_prompt, bootstrap, cleared_for, delete_enabled_error, deletion,
    first_enabled, holds_content, import, imported_prompt, is_first_enabled, live_text,
    reconciled, reconciled_row, reconciles, replay, switched, upsertion, AppStateView,
    EffectView,
};
use crate::text::{blank, decimal};
use vstd::prelude::*;

verus! {

/// Whether the row with id `id`, and no other, is enabled.
pub open spec fn only_enabled(rows: Seq<PromptView>, id: Seq<char>) -> bool {
    &&& has_id(rows, id)
    &&& forall|i: int| 0 <= i < rows.len() ==> ((#[trigger] rows[i]).enabled <==> rows[i].id == id)
}

/// One call of an activation: the target and what the clock gave.
pub struct Call {
    pub id: Seq<char>,
    pub now: Result<i64, AppErrorView>,
    pub stamp: Seq<char>,
}

/// The state after the activations `calls`, made in order from `s`.
pub open spec fn after_calls(s: AppStateView, calls: Seq<Call>) -> AppStateView
    decreases calls.len(),
{
    if calls.len() == 0 {
        s
    } else {
        let c = calls.last();
        activation(after_calls(s, calls.drop_last()), c.id, c.now, c.stamp).0
    }
}

/// The result of the last of the activations `calls`, made in order from `s`.
pub open spec fn last_result(s: AppStateView, calls: Seq<Call>) -> Result<(), AppErrorView>
    recommends
        calls.len() > 0,
{
    let c = calls.last();
    activation(after_calls(s, calls.drop_last()), c.id, c.now, c.stamp).1
}

/// The row that keeps the live content leaves the table well-formed.
pub proof fn lemma_reconciled_wf(s: AppStateView, timestamp: i64, stamp: Seq<char>)
    requires
        table_wf(s.db),
    ensures
        table_wf(reconciled(s, timestamp, stamp).db),
        reconciled(s, timestamp, stamp).file == s.file,
        forall|id: Seq<char>| has_id(s.db, id) ==> has_id(reconciled(s, timestamp, stamp).db, id),
{
    if reconciles(s.db, s.file) {
        lemma_saved(s.db, reconciled_row(s.db, s.file, timestamp, stamp));
    }
}

/// The switch: it succeeds exactly where the target is in the table; then
/// the target alone is enabled and the file holds its content, which the
/// switch did not change. Where it fails no row is enabled and the file is
/// as it was.
pub proof fn lemma_switched(s: AppStateView, id: Seq<char>)
    requires
        table_wf(s.db),
    ensures
        table_wf(switched(s, id).0.db),
        switched(s, id).1 is Ok <==> has_id(s.db, id),
        switched(s, id).1 is Ok ==> only_enabled(switched(s, id).0.db, id) && switched(
            s,
            id,
        ).0.file == PromptFileView::Present(row_of(switched(s, id).0.db, id).content) && row_of(
            switched(s, id).0.db,
            id,
        ).content == row_of(s.db, id).content,
        switched(s, id).1 is Err ==> !any_enabled(switched(s, id).0.db) && switched(s, id).0.file
            == s.file,
        forall|other: Seq<char>|
            has_id(switched(s, id).0.db, other) <==> has_id(s.db, other),
        forall|other: Seq<char>|
            has_id(s.db, other) ==> row_of(switched(s, id).0.db, other) == (PromptView {
                enabled: other == id,
                ..row_of(s.db, other)
            }),
        switched(s, id).0.db.len() == s.db.len(),
{
    let rows = all_disabled(s.db);
    lemma_all_disabled(s.db);
    lemma_with_enabled(rows, id);
    let t = switched(s, id).0;
    if has_id(rows, id) {
        assert forall|i: int| 0 <= i < t.db.len() implies ((#[trigger] t.db[i]).enabled
            <==> t.db[i].id == id) by {
            assert(!rows[i].enabled);
        }
    } else {
        assert forall|i: int| 0 <= i < t.db.len() implies !(#[trigger] t.db[i]).enabled by {
            assert(t.db[i] == rows[i]);
        }
    }
}

/// An activation leaves the table well-formed.
pub proof fn lemma_activation_wf(
    s: AppStateView,
    id: Seq<char>,
    now: Result<i64, AppErrorView>,
    stamp: Seq<char>,
)
    requires
        table_wf(s.db),
    ensures
        table_wf(activation(s, id, now, stamp).0.db),
{
    lemma_reconciled_wf(s, now->Ok_0, stamp);
    lemma_switched(reconciled(s, now->Ok_0, stamp), id);
}

/// An activation that targets a prompt of the table succeeds, where
/// reading the file does not fail and the clock gave a time.
pub proof fn lemma_activation_succeeds(
    s: AppStateView,
    id: Seq<char>,
    timestamp: i64,
    stamp: Seq<char>,
)
    requires
        table_wf(s.db),
        has_id(s.db, id),
        read_result(s.file) is Ok,
    ensures
        activation(s, id, Ok(timestamp), stamp).1 is Ok,
{
    lemma_reconciled_wf(s, timestamp, stamp);
    lemma_switched(reconciled(s, timestamp, stamp), id);
}

/// After an activation that succeeded, exactly one prompt is enabled: the
/// target. The file then holds the target's content.
pub proof fn lemma_activation_enables_target(
    s: AppStateView,
    id: Seq<char>,
    now: Result<i64, AppErrorView>,
    stamp: Seq<char>,
)
    requires
        table_wf(s.db),
        activation(s, id, now, stamp).1 is Ok,
    ensures
        only_enabled(activation(s, id, now, stamp).0.db, id),
        activation(s, id, now, stamp).0.file == PromptFileView::Present(
            row_of(activation(s, id, now, stamp).0.db, id).content,
        ),
{
    lemma_reconciled_wf(s, now->Ok_0, stamp);
    lemma_switched(reconciled(s, now->Ok_0, stamp), id);
}

/// Activations made in order leave the table well-formed.
pub proof fn lemma_after_calls_wf(s: AppStateView, calls: Seq<Call>)
    requires
        table_wf(s.db),
    ensures
        table_wf(after_calls(s, calls).db),
    decreases calls.len(),
{
    if calls.len() > 0 {
        let c = calls.last();
        lemma_after_calls_wf(s, calls.drop_last());
        lemma_activation_wf(after_calls(s, calls.drop_last()), c.id, c.now, c.stamp);
    }
}

/// After any sequence of activations of which the last succeeded, exactly
/// one prompt is enabled, and it is the target of the last.
pub proof fn lemma_last_target_is_active(s: AppStateView, calls: Seq<Call>)
    requires
        table_wf(s.db),
        calls.len() > 0,
        last_result(s, calls) is Ok,
    ensures
        only_enabled(after_calls(s, calls).db, calls.last().id),
{
    let c = calls.last();
    lemma_after_calls_wf(s, calls.drop_last());
    lemma_activation_enables_target(after_calls(s, calls.drop_last()), c.id, c.now, c.stamp);
}

/// Deleting an enabled prompt is refused, and nothing changes.
pub proof fn lemma_delete_enabled_refused(s: AppStateView, id: Seq<char>)
    requires
        has_id(s.db, id),
        row_of(s.db, id).enabled,
    ensures
        deletion(s, id) == (s, Err::<(), AppErrorView>(delete_enabled_error())),
{
}

/// Deleting a prompt that is not enabled removes it and nothing else.
pub proof fn lemma_delete_removes(s: AppStateView, id: Seq<char>)
    requires
        table_wf(s.db),
        has_id(s.db, id) ==> !row_of(s.db, id).enabled,
    ensures
        deletion(s, id).1 is Ok,
        table_wf(deletion(s, id).0.db),
        !has_id(deletion(s, id).0.db, id),
        forall|other: Seq<char>|
            other != id ==> (has_id(deletion(s, id).0.db, other) <==> has_id(s.db, other)),
        forall|other: Seq<char>|
            other != id && has_id(s.db, other) ==> row_of(deletion(s, id).0.db, other) == row_of(
                s.db,
                other,
            ),
{
    lemma_without(s.db, id);
}

/// After an import from a readable file, the listing holds a disabled
/// prompt under the returned id whose content is the file's, character for
/// character. The table has one row more, unless the id was taken.
pub proof fn lemma_import_lists_file(s: AppStateView, timestamp: i64, stamp: Seq<char>)
    requires
        table_wf(s.db),
        s.file is Present,
    ensures
        import(s, Ok(timestamp), stamp).1 == Ok::<Seq<char>, AppErrorView>(
            "imported-"@ + decimal(timestamp as int),
        ),
        ({
            let t = import(s, Ok(timestamp), stamp).0;
            let id = "imported-"@ + decimal(timestamp as int);
            &&& table_wf(t.db)
            &&& has_id(t.db, id)
            &&& row_of(t.db, id) == imported_prompt(s.file->Present_0, timestamp, stamp)
            &&& row_of(t.db, id).content == s.file->Present_0
            &&& !row_of(t.db, id).enabled
            &&& exists|i: int|
                0 <= i < listing(t.db).len() && #[trigger] listing(t.db)[i] == (id, row_of(t.db, id))
            &&& t.db.len() == if has_id(s.db, id) {
                s.db.len()
            } else {
                s.db.len() + 1
            }
            &&& t.file == s.file
            &&& forall|other: Seq<char>|
                other != id && has_id(s.db, other) ==> has_id(t.db, other) && row_of(t.db, other)
                    == row_of(s.db, other)
        }),
{
    let row = imported_prompt(s.file->Present_0, timestamp, stamp);
    lemma_saved(s.db, row);
    let t = import(s, Ok(timestamp), stamp).0;
    let i = position(t.db, row.id);
    assert(listing(t.db)[i] == (row.id, row_of(t.db, row.id)));
}

/// Drift capture: where a prompt is enabled and the file has content that
/// is not blank, an activation copies that content into the first enabled
/// prompt and sets its time of update to the clock's reading, whether or
/// not the content differs from what the prompt had. The prompt stays
/// enabled only where it is itself the target.
pub proof fn lemma_drift_captured(
    s: AppStateView,
    id: Seq<char>,
    timestamp: i64,
    stamp: Seq<char>,
)
    requires
        table_wf(s.db),
        any_enabled(s.db),
        s.file is Present,
        !blank(s.file->Present_0),
    ensures
        ({
            let t = activation(s, id, Ok(timestamp), stamp).0;
            let active = first_enabled(s.db);
            &&& first_enabled(s.db).enabled
            &&& has_id(s.db, active.id)
            &&& has_id(t.db, active.id)
            &&& row_of(t.db, active.id) == (PromptView {
                content: s.file->Present_0,
                updated_at: Some(timestamp),
                enabled: active.id == id,
                ..active
            })
        }),
{
    let i = choose|i: int| 0 <= i < s.db.len() && (#[trigger] s.db[i]).enabled;
    lemma_some_first_enabled(s.db, i);
    let k = choose|k: int| is_first_enabled(s.db, k);
    let active = first_enabled(s.db);
    assert(active == s.db[k]);
    let row = backfilled(active, s.file->Present_0, timestamp);
    assert(reconciled_row(s.db, s.file, timestamp, stamp) == row);
    lemma_saved(s.db, row);
    let mid = reconciled(s, timestamp, stamp);
    lemma_switched(mid, id);
}

/// Where some row is enabled, some row is the first enabled one.
pub proof fn lemma_some_first_enabled(rows: Seq<PromptView>, i: int)
    requires
        0 <= i < rows.len(),
        rows[i].enabled,
    ensures
        exists|k: int| is_first_enabled(rows, k),
    decreases i,
{
    if exists|j: int| 0 <= j < i && (#[trigger] rows[j]).enabled {
        let j = choose|j: int| 0 <= j < i && (#[trigger] rows[j]).enabled;
        lemma_some_first_enabled(rows, j);
    } else {
        assert(is_first_enabled(rows, i));
    }
}

/// Backup creation: where no prompt is enabled and no prompt has the file's
/// content (both trimmed), an activation first saves a backup whose content
/// is the file's, character for character. The backup is disabled unless it
/// is itself the target; the table has one row more, unless the backup's id
/// was taken; every other prompt keeps what it had, but for its flag.
pub proof fn lemma_backup_created(
    s: AppStateView,
    id: Seq<char>,
    timestamp: i64,
    stamp: Seq<char>,
)
    requires
        table_wf(s.db),
        !any_enabled(s.db),
        s.file is Present,
        !blank(s.file->Present_0),
        !holds_content(s.db, s.file->Present_0),
    ensures
        ({
            let t = activation(s, id, Ok(timestamp), stamp).0;
            let backup = backup_prompt(s.file->Present_0, timestamp, stamp);
            &&& backup.id == "backup-"@ + decimal(timestamp as int)
            &&& backup.content == s.file->Present_0
            &&& has_id(t.db, backup.id)
            &&& row_of(t.db, backup.id) == (PromptView { enabled: backup.id == id, ..backup })
            &&& t.db.len() == if has_id(s.db, backup.id) {
                s.db.len()
            } else {
                s.db.len() + 1
            }
            &&& forall|other: Seq<char>|
                other != backup.id ==> (has_id(t.db, other) <==> has_id(s.db, other))
            &&& forall|other: Seq<char>|
                other != backup.id && has_id(s.db, other) ==> row_of(t.db, other) == (PromptView {
                    enabled: other == id,
                    ..row_of(s.db, other)
                })
        }),
{
    let backup = backup_prompt(s.file->Present_0, timestamp, stamp);
    assert(reconciled_row(s.db, s.file, timestamp, stamp) == backup);
    lemma_saved(s.db, backup);
    let mid = reconciled(s, timestamp, stamp);
    lemma_switched(mid, id);
}

/// No duplicate backup: where no prompt is enabled and some prompt has the
/// file's content (both trimmed), an activation saves nothing before it
/// switches, whatever the clock gave: no row is added and none is changed
/// but for its flag.
pub proof fn lemma_no_duplicate_backup(
    s: AppStateView,
    id: Seq<char>,
    now: Result<i64, AppErrorView>,
    stamp: Seq<char>,
)
    requires
        table_wf(s.db),
        !any_enabled(s.db),
        s.file is Present,
        holds_content(s.db, s.file->Present_0),
    ensures
        activation(s, id, now, stamp) == switched(s, id),
        activation(s, id, now, stamp).0.db.len() == s.db.len(),
        forall|other: Seq<char>|
            has_id(activation(s, id, now, stamp).0.db, other) <==> has_id(s.db, other),
        forall|other: Seq<char>|
            has_id(s.db, other) ==> row_of(activation(s, id, now, stamp).0.db, other) == (
            PromptView { enabled: other == id, ..row_of(s.db, other) }),
{
    lemma_switched(s, id);
}

/// Without content to keep, an activation is the switch alone: where no
/// file is there, or it is blank.
pub proof fn lemma_nothing_to_keep(
    s: AppStateView,
    id: Seq<char>,
    now: Result<i64, AppErrorView>,
    stamp: Seq<char>,
)
    requires
        read_result(s.file) is Ok,
        live_text(s.file) is None,
    ensures
        activation(s, id, now, stamp) == switched(s, id),
{
}

/// An activation fails on a file that is there and cannot be read: the
/// error names the file, no row changes and the file is not written.
pub proof fn lemma_activation_refuses_unreadable(
    s: AppStateView,
    id: Seq<char>,
    now: Result<i64, AppErrorView>,
    stamp: Seq<char>,
)
    requires
        s.file is Unreadable,
    ensures
        activation(s, id, now, stamp) == (
            s,
            Err::<(), AppErrorView>(
                AppErrorView::Io { path: s.file->path, source: s.file->reason },
            ),
        ),
{
}

/// Saving a disabled row leaves at most one row enabled.
pub proof fn lemma_saved_keeps_one(rows: Seq<PromptView>, p: PromptView)
    requires
        table_wf(rows),
        at_most_one_enabled(rows),
        !p.enabled,
    ensures
        at_most_one_enabled(saved(rows, p)),
{
    let next = saved(rows, p);
    lemma_saved(rows, p);
    assert forall|i: int, j: int|
        0 <= i < next.len() && 0 <= j < next.len() && (#[trigger] next[i]).enabled && (
        #[trigger] next[j]).enabled implies i == j by {
        lemma_row_after_save(rows, p, i);
        lemma_row_after_save(rows, p, j);
        let a = position(rows, next[i].id);
        let b = position(rows, next[j].id);
        assert(rows[a].enabled && rows[b].enabled);
        lemma_position(next, next[i].id, i);
        lemma_position(next, next[j].id, j);
    }
}

/// A row of a table after a save is the saved row, or was in the table
/// before under the same id and is unchanged.
pub proof fn lemma_row_after_save(rows: Seq<PromptView>, p: PromptView, i: int)
    requires
        table_wf(rows),
        0 <= i < saved(rows, p).len(),
    ensures
        saved(rows, p)[i].id == p.id ==> saved(rows, p)[i] == p,
        saved(rows, p)[i].id != p.id ==> has_id(rows, saved(rows, p)[i].id) && row_of(
            rows,
            saved(rows, p)[i].id,
        ) == saved(rows, p)[i],
{
    let next = saved(rows, p);
    let id = next[i].id;
    lemma_saved(rows, p);
    lemma_position(next, id, i);
    assert(row_of(next, id) == next[i]);
    if id != p.id {
        assert(has_id(next, id));
        assert(has_id(rows, id));
        assert(row_of(next, id) == row_of(rows, id));
    }
}

/// Saving a row into a table without an enabled row leaves at most one row
/// enabled.
pub proof fn lemma_saved_alone(rows: Seq<PromptView>, p: PromptView)
    requires
        table_wf(rows),
        !any_enabled(rows),
    ensures
        at_most_one_enabled(saved(rows, p)),
{
    let next = saved(rows, p);
    lemma_saved(rows, p);
    assert forall|i: int, j: int|
        0 <= i < next.len() && 0 <= j < next.len() && (#[trigger] next[i]).enabled && (
        #[trigger] next[j]).enabled implies i == j by {
        lemma_row_after_save(rows, p, i);
        lemma_row_after_save(rows, p, j);
        if next[i].id != p.id {
            assert(rows[position(rows, next[i].id)].enabled);
        }
        if next[j].id != p.id {
            assert(rows[position(rows, next[j].id)].enabled);
        }
        lemma_position(next, next[i].id, i);
        lemma_position(next, next[j].id, j);
    }
}

/// Saving a prompt on request leaves at most one prompt enabled: always
/// where the prompt is enabled, and where it is not, if at most one was.
pub proof fn lemma_upsertion_keeps_one(s: AppStateView, p: PromptView)
    requires
        table_wf(s.db),
        p.enabled || at_most_one_enabled(s.db),
    ensures
        at_most_one_enabled(upsertion(s, p).0.db),
        p.enabled ==> has_id(upsertion(s, p).0.db, p.id) && row_of(upsertion(s, p).0.db, p.id)
            == p,
{
    let cleared = cleared_for(s, p);
    if p.enabled {
        lemma_all_disabled(s.db);
        assert(!any_enabled(cleared.db));
        lemma_saved_alone(cleared.db, p);
    } else {
        lemma_saved_keeps_one(s.db, p);
    }
    lemma_saved(cleared.db, p);
}

/// An activation leaves at most one prompt enabled, if at most one was.
pub proof fn lemma_activation_keeps_one(
    s: AppStateView,
    id: Seq<char>,
    now: Result<i64, AppErrorView>,
    stamp: Seq<char>,
)
    requires
        table_wf(s.db),
        at_most_one_enabled(s.db),
    ensures
        at_most_one_enabled(activation(s, id, now, stamp).0.db),
{
    let mid = reconciled(s, now->Ok_0, stamp);
    lemma_reconciled_wf(s, now->Ok_0, stamp);
    lemma_switched(mid, id);
    let next = switched(mid, id).0.db;
    assert forall|i: int, j: int|
        0 <= i < next.len() && 0 <= j < next.len() && (#[trigger] next[i]).enabled && (
        #[trigger] next[j]).enabled implies i == j by {
        lemma_position(next, next[i].id, i);
        lemma_position(next, next[j].id, j);
    }
}

/// A deletion leaves at most one prompt enabled, if at most one was.
pub proof fn lemma_deletion_keeps_one(s: AppStateView, id: Seq<char>)
    requires
        table_wf(s.db),
        at_most_one_enabled(s.db),
    ensures
        at_most_one_enabled(deletion(s, id).0.db),
{
    let next = without(s.db, id);
    lemma_without(s.db, id);
    assert forall|i: int, j: int|
        0 <= i < next.len() && 0 <= j < next.len() && (#[trigger] next[i]).enabled && (
        #[trigger] next[j]).enabled implies i == j by {
        let id_i = next[i].id;
        let id_j = next[j].id;
        lemma_position(next, id_i, i);
        lemma_position(next, id_j, j);
        assert(has_id(next, id_i) && has_id(next, id_j));
        assert(has_id(s.db, id_i) && has_id(s.db, id_j));
        assert(row_of(next, id_i) == row_of(s.db, id_i));
        assert(row_of(next, id_j) == row_of(s.db, id_j));
        let a = position(s.db, id_i);
        let b = position(s.db, id_j);
        assert(s.db[a].enabled && s.db[b].enabled);
    }
}

/// An import leaves at most one prompt enabled, if at most one was.
pub proof fn lemma_import_keeps_one(
    s: AppStateView,
    now: Result<i64, AppErrorView>,
    stamp: Seq<char>,
)
    requires
        table_wf(s.db),
        at_most_one_enabled(s.db),
    ensures
        at_most_one_enabled(import(s, now, stamp).0.db),
{
    if s.file is Present && now is Ok {
        lemma_saved_keeps_one(s.db, imported_prompt(s.file->Present_0, now->Ok_0, stamp));
    }
}

/// The import of the first launch leaves at most one prompt enabled, if at
/// most one was.
pub proof fn lemma_bootstrap_keeps_one(
    s: AppStateView,
    now: Result<i64, AppErrorView>,
    stamp: Seq<char>,
)
    requires
        table_wf(s.db),
        at_most_one_enabled(s.db),
    ensures
        at_most_one_enabled(bootstrap(s, now, stamp).0.db),
{
    if bootstrap(s, now, stamp).0 != s {
        lemma_saved_alone(
            s.db,
            auto_imported_prompt(live_text(s.file)->0, now->Ok_0, stamp),
        );
    }
}

/// First launch: on an empty table, a file with content that is not blank
/// becomes the one prompt, enabled, with the file's content, under an id
/// that starts with `auto-imported-`. The file is left as it is.
pub proof fn lemma_bootstrap_seeds(s: AppStateView, timestamp: i64, stamp: Seq<char>)
    requires
        s.db.len() == 0,
        s.file is Present,
        !blank(s.file->Present_0),
    ensures
        bootstrap(s, Ok(timestamp), stamp).1 == Ok::<usize, AppErrorView>(1),
        bootstrap(s, Ok(timestamp), stamp).0.db == seq![
            auto_imported_prompt(s.file->Present_0, timestamp, stamp),
        ],
        bootstrap(s, Ok(timestamp), stamp).0.file == s.file,
        auto_imported_prompt(s.file->Present_0, timestamp, stamp).enabled,
        auto_imported_prompt(s.file->Present_0, timestamp, stamp).content == s.file->Present_0,
        auto_imported_prompt(s.file->Present_0, timestamp, stamp).id == "auto-imported-"@
            + decimal(timestamp as int),
{
    let row = auto_imported_prompt(s.file->Present_0, timestamp, stamp);
    assert(!has_id(s.db, row.id));
    assert(is_slot(s.db, row.created_at, 0));
    lemma_slot(s.db, row.created_at, 0);
    assert(saved(s.db, row) =~= seq![row]);
}

/// First launch: a table that has rows is left alone, whatever the file
/// holds.
pub proof fn lemma_bootstrap_once(
    s: AppStateView,
    now: Result<i64, AppErrorView>,
    stamp: Seq<char>,
)
    requires
        s.db.len() > 0,
    ensures
        bootstrap(s, now, stamp) == (s, Ok::<usize, AppErrorView>(0)),
{
}

/// The effects that an operation added to the record.
pub open spec fn added(before: AppStateView, after: AppStateView) -> Seq<EffectView> {
    after.effects.skip(before.effects.len() as int)
}

/// Whether carrying out, in order, the effects that were added between
/// `before` and `after` turns the table and the file of `before` into those
/// of `after`.
pub open spec fn faithful(before: AppStateView, after: AppStateView) -> bool {
    &&& before.effects.len() <= after.effects.len()
    &&& after.effects.take(before.effects.len() as int) == before.effects
    &&& replay(before.db, before.file, added(before, after)) == (after.db, after.file)
}

/// Replaying nothing changes nothing.
pub proof fn lemma_replay_none(s: AppStateView)
    ensures
        faithful(s, s),
{
    assert(s.effects.take(s.effects.len() as int) =~= s.effects);
    assert(added(s, s) =~= Seq::<EffectView>::empty());
}

/// Replaying one effect more.
pub proof fn lemma_replay_push(
    before: AppStateView,
    mid: AppStateView,
    after: AppStateView,
    effect: EffectView,
)
    requires
        faithful(before, mid),
        after.effects == mid.effects.push(effect),
        (after.db, after.file) == apply_effect(mid.db, mid.file, effect),
    ensures
        faithful(before, after),
{
    let n = before.effects.len() as int;
    assert(after.effects.take(n) =~= mid.effects.take(n));
    assert(added(before, after).drop_last() =~= added(before, mid));
    assert(added(before, after).last() == effect);
}

/// The record is faithful for an activation: a host that carries out the
/// effects it added, in order, brings its table and file to the same state.
pub proof fn lemma_activation_faithful(
    s: AppStateView,
    id: Seq<char>,
    now: Result<i64, AppErrorView>,
    stamp: Seq<char>,
)
    ensures
        faithful(s, activation(s, id, now, stamp).0),
{
    lemma_replay_none(s);
    let t = activation(s, id, now, stamp).0;
    if read_result(s.file) is Err || (reconciles(s.db, s.file) && now is Err) {
    } else {
        let mid = reconciled(s, now->Ok_0, stamp);
        if reconciles(s.db, s.file) {
            let row = reconciled_row(s.db, s.file, now->Ok_0, stamp);
            lemma_replay_push(s, s, mid, EffectView::SavePrompt(row));
        }
        let off = AppStateView {
            db: all_disabled(mid.db),
            effects: mid.effects.push(EffectView::DisableAllPrompts),
            ..mid
        };
        lemma_replay_push(s, mid, off, EffectView::DisableAllPrompts);
        if has_id(off.db, id) {
            let content = row_of(off.db, id).content;
            let written = AppStateView {
                file: PromptFileView::Present(content),
                effects: off.effects.push(EffectView::WriteFile(content)),
                ..off
            };
            lemma_replay_push(s, off, written, EffectView::WriteFile(content));
            lemma_replay_push(s, written, t, EffectView::EnablePrompt(id));
        }
    }
}

/// The record is faithful for saving a prompt on request.
pub proof fn lemma_upsertion_faithful(s: AppStateView, p: PromptView)
    ensures
        faithful(s, upsertion(s, p).0),
{
    lemma_replay_none(s);
    let cleared = cleared_for(s, p);
    if p.enabled {
        lemma_replay_push(s, s, cleared, EffectView::DisableAllPrompts);
    }
    let kept = AppStateView {
        db: saved(cleared.db, p),
        effects: cleared.effects.push(EffectView::SavePrompt(p)),
        ..cleared
    };
    lemma_replay_push(s, cleared, kept, EffectView::SavePrompt(p));
    if p.enabled && !(s.file is Unlocated) {
        lemma_replay_push(s, kept, upsertion(s, p).0, EffectView::WriteFile(p.content));
    }
}

/// The record is faithful for a deletion.
pub proof fn lemma_deletion_faithful(s: AppStateView, id: Seq<char>)
    ensures
        faithful(s, deletion(s, id).0),
{
    lemma_replay_none(s);
    if !(has_id(s.db, id) && row_of(s.db, id).enabled) {
        lemma_replay_push(s, s, deletion(s, id).0, EffectView::DeletePrompt(id));
    }
}

/// The record is faithful for an import.
pub proof fn lemma_import_faithful(
    s: AppStateView,
    now: Result<i64, AppErrorView>,
    stamp: Seq<char>,
)
    ensures
        faithful(s, import(s, now, stamp).0),
{
    lemma_replay_none(s);
    if s.file is Present && now is Ok {
        let row = imported_prompt(s.file->Present_0, now->Ok_0, stamp);
        lemma_replay_push(s, s, import(s, now, stamp).0, EffectView::SavePrompt(row));
    }
}

/// The record is faithful for the import of the first launch.
pub proof fn lemma_bootstrap_faithful(
    s: AppStateView,
    now: Result<i64, AppErrorView>,
    stamp: Seq<char>,
)
    ensures
        faithful(s, bootstrap(s, now, stamp).0),
{
    lemma_replay_none(s);
    let t = bootstrap(s, now, stamp).0;
    if t != s {
        let row = auto_imported_prompt(live_text(s.file)->0, now->Ok_0, stamp);
        lemma_replay_push(s, s, t, EffectView::SavePrompt(row));
    }
}

} // verus!
