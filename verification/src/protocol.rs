//! What each operation does, stated over the values of the table, the file
//! and the record of effects.

use crate::database::{all_disabled, has_id, row_of, saved, with_enabled, without};
use crate::error::AppErrorView;
use crate::prompt::PromptView;
use crate::prompt_file::{read_result, unlocated_error, PromptFileView};
use crate::text::{blank, decimal, trimmed};
use vstd::prelude::*;

verus! {

/// One change to the table or to the file.
pub enum EffectView {
    SavePrompt(PromptView),
    DeletePrompt(Seq<char>),
    DisableAllPrompts,
    EnablePrompt(Seq<char>),
    WriteFile(Seq<char>),
}

/// The table, the file, and the changes made to them so far, oldest first.
pub struct AppStateView {
    pub db: Seq<PromptView>,
    pub file: PromptFileView,
    pub effects: Seq<EffectView>,
}

/// The table and the file after one change is carried out.
pub open spec fn apply_effect(
    db: Seq<PromptView>,
    file: PromptFileView,
    effect: EffectView,
) -> (Seq<PromptView>, PromptFileView) {
    match effect {
        EffectView::SavePrompt(p) => (saved(db, p), file),
        EffectView::DeletePrompt(id) => (without(db, id), file),
        EffectView::DisableAllPrompts => (all_disabled(db), file),
        EffectView::EnablePrompt(id) => (with_enabled(db, id), file),
        EffectView::WriteFile(content) => (db, PromptFileView::Present(content)),
    }
}

/// The table and the file after the changes are carried out in order.
pub open spec fn replay(
    db: Seq<PromptView>,
    file: PromptFileView,
    effects: Seq<EffectView>,
) -> (Seq<PromptView>, PromptFileView)
    decreases effects.len(),
{
    if effects.len() == 0 {
        (db, file)
    } else {
        let before = replay(db, file, effects.drop_last());
        apply_effect(before.0, before.1, effects.last())
    }
}

/// A prompt that the service makes up: its id is `prefix` and the decimal
/// timestamp, its name is `label`, a space and the local time.
pub open spec fn synthesized(
    prefix: Seq<char>,
    label: Seq<char>,
    note: Seq<char>,
    content: Seq<char>,
    enabled: bool,
    timestamp: i64,
    stamp: Seq<char>,
) -> PromptView {
    PromptView {
        id: prefix + decimal(timestamp as int),
        name: label + " "@ + stamp,
        content,
        description: Some(note),
        enabled,
        created_at: Some(timestamp),
        updated_at: Some(timestamp),
    }
}

/// The disabled record that keeps file content no prompt has.
pub open spec fn backup_prompt(content: Seq<char>, timestamp: i64, stamp: Seq<char>) -> PromptView {
    synthesized(
        "backup-"@,
        "Original Prompt"@,
        "Auto-backup of original prompt"@,
        content,
        false,
        timestamp,
        stamp,
    )
}

/// The disabled record made from the file on request.
pub open spec fn imported_prompt(content: Seq<char>, timestamp: i64, stamp: Seq<char>) -> PromptView {
    synthesized(
        "imported-"@,
        "Imported Prompt"@,
        "Imported from existing AGENTS.md"@,
        content,
        false,
        timestamp,
        stamp,
    )
}

/// The enabled record made from the file on first launch.
pub open spec fn auto_imported_prompt(
    content: Seq<char>,
    timestamp: i64,
    stamp: Seq<char>,
) -> PromptView {
    synthesized(
        "auto-imported-"@,
        "Auto-imported Prompt"@,
        "Automatically imported on first launch"@,
        content,
        true,
        timestamp,
        stamp,
    )
}

/// The file content that an activation has to preserve: the content of a
/// readable file, unless it is blank.
pub open spec fn live_text(file: PromptFileView) -> Option<Seq<char>> {
    match file {
        PromptFileView::Present(content) => if blank(content) {
            None
        } else {
            Some(content)
        },
        _ => None,
    }
}

/// Whether some row is enabled.
pub open spec fn any_enabled(rows: Seq<PromptView>) -> bool {
    exists|i: int| 0 <= i < rows.len() && (#[trigger] rows[i]).enabled
}

/// Whether no two rows are enabled.
pub open spec fn at_most_one_enabled(rows: Seq<PromptView>) -> bool {
    forall|i: int, j: int|
        0 <= i < rows.len() && 0 <= j < rows.len() && (#[trigger] rows[i]).enabled && (
        #[trigger] rows[j]).enabled ==> i == j
}

/// Whether `i` is the first enabled row in listing order.
pub open spec fn is_first_enabled(rows: Seq<PromptView>, i: int) -> bool {
    &&& 0 <= i < rows.len()
    &&& rows[i].enabled
    &&& forall|j: int| 0 <= j < i ==> !(#[trigger] rows[j]).enabled
}

/// The first enabled row in listing order, where there is one.
pub open spec fn first_enabled(rows: Seq<PromptView>) -> PromptView {
    rows[choose|i: int| is_first_enabled(rows, i)]
}

/// Whether some row's content equals `text` once both are trimmed.
pub open spec fn holds_content(rows: Seq<PromptView>, text: Seq<char>) -> bool {
    exists|i: int| 0 <= i < rows.len() && trimmed((#[trigger] rows[i]).content) == trimmed(text)
}

/// `p` with the live file content copied into it.
pub open spec fn backfilled(p: PromptView, live: Seq<char>, timestamp: i64) -> PromptView {
    PromptView { content: live, updated_at: Some(timestamp), ..p }
}

/// Whether an activation saves a row before it switches: the file has
/// content to preserve, and either a row is enabled (it takes the content)
/// or no row has the content (a backup takes it).
pub open spec fn reconciles(rows: Seq<PromptView>, file: PromptFileView) -> bool {
    live_text(file) matches Some(live) && (any_enabled(rows) || !holds_content(rows, live))
}

/// The row that an activation saves before it switches, where
/// [`reconciles`] holds.
pub open spec fn reconciled_row(
    rows: Seq<PromptView>,
    file: PromptFileView,
    timestamp: i64,
    stamp: Seq<char>,
) -> PromptView {
    let live = live_text(file)->0;
    if any_enabled(rows) {
        backfilled(first_enabled(rows), live, timestamp)
    } else {
        backup_prompt(live, timestamp, stamp)
    }
}

/// The error for an id that no row has.
pub open spec fn not_found_error(id: Seq<char>) -> AppErrorView {
    AppErrorView::InvalidInput("Prompt "@ + id + " not found"@)
}

/// The error for deleting the enabled row.
pub open spec fn delete_enabled_error() -> AppErrorView {
    AppErrorView::InvalidInput("Cannot delete enabled prompt"@)
}

/// The error for importing from a file that is not there.
pub open spec fn file_missing_error() -> AppErrorView {
    AppErrorView::Message("AGENTS.md file not found"@)
}

/// The state in which an activation switches: after the row of
/// reconciliation, if any, is saved.
pub open spec fn reconciled(
    s: AppStateView,
    timestamp: i64,
    stamp: Seq<char>,
) -> AppStateView {
    if reconciles(s.db, s.file) {
        let row = reconciled_row(s.db, s.file, timestamp, stamp);
        AppStateView {
            db: saved(s.db, row),
            effects: s.effects.push(EffectView::SavePrompt(row)),
            ..s
        }
    } else {
        s
    }
}

/// The switch itself: every row is disabled; then, where the target is
/// there, its content is written to the file and it is enabled. Where it is
/// missing the rows stay disabled and nothing is written.
pub open spec fn switched(s: AppStateView, id: Seq<char>) -> (AppStateView, Result<
    (),
    AppErrorView,
>) {
    let rows = all_disabled(s.db);
    let effects = s.effects.push(EffectView::DisableAllPrompts);
    if has_id(rows, id) {
        let content = row_of(rows, id).content;
        (
            AppStateView {
                db: with_enabled(rows, id),
                file: PromptFileView::Present(content),
                effects: effects.push(EffectView::WriteFile(content)).push(
                    EffectView::EnablePrompt(id),
                ),
            },
            Ok(()),
        )
    } else {
        (AppStateView { db: rows, effects, ..s }, Err(not_found_error(id)))
    }
}

/// Activating the prompt `id`, with the clock's reading `now` and the local
/// time `stamp`: the state afterwards and the result.
///
/// Nothing happens where the file cannot be read, be it that its place is
/// unknown or that reading it fails, or where a row has to be saved first
/// and the clock gave no time.
pub open spec fn activation(
    s: AppStateView,
    id: Seq<char>,
    now: Result<i64, AppErrorView>,
    stamp: Seq<char>,
) -> (AppStateView, Result<(), AppErrorView>) {
    match read_result(s.file) {
        Err(e) => (s, Err(e)),
        Ok(_) => if reconciles(s.db, s.file) && now is Err {
            (s, Err(now->Err_0))
        } else {
            switched(reconciled(s, now->Ok_0, stamp), id)
        },
    }
}

/// The state in which a prompt is saved on request: an enabled prompt takes
/// the place of whichever was enabled, so every row is disabled first.
pub open spec fn cleared_for(s: AppStateView, p: PromptView) -> AppStateView {
    if p.enabled {
        AppStateView {
            db: all_disabled(s.db),
            effects: s.effects.push(EffectView::DisableAllPrompts),
            ..s
        }
    } else {
        s
    }
}

/// Saving `p` on request: the row is saved, as the one enabled row where it
/// is enabled, and its content is then written to the file. Where the
/// file's place is unknown the row is saved all the same.
pub open spec fn upsertion(s: AppStateView, p: PromptView) -> (AppStateView, Result<
    (),
    AppErrorView,
>) {
    let cleared = cleared_for(s, p);
    let kept = AppStateView {
        db: saved(cleared.db, p),
        effects: cleared.effects.push(EffectView::SavePrompt(p)),
        ..cleared
    };
    if !p.enabled {
        (kept, Ok(()))
    } else if s.file is Unlocated {
        (kept, Err(unlocated_error()))
    } else {
        (
            AppStateView {
                file: PromptFileView::Present(p.content),
                effects: kept.effects.push(EffectView::WriteFile(p.content)),
                ..kept
            },
            Ok(()),
        )
    }
}

/// Deleting the row `id`: refused while it is enabled.
pub open spec fn deletion(s: AppStateView, id: Seq<char>) -> (AppStateView, Result<
    (),
    AppErrorView,
>) {
    if has_id(s.db, id) && row_of(s.db, id).enabled {
        (s, Err(delete_enabled_error()))
    } else {
        (
            AppStateView {
                db: without(s.db, id),
                effects: s.effects.push(EffectView::DeletePrompt(id)),
                ..s
            },
            Ok(()),
        )
    }
}

/// Importing the file as a new disabled row: the state afterwards, and the
/// new row's id.
pub open spec fn import(
    s: AppStateView,
    now: Result<i64, AppErrorView>,
    stamp: Seq<char>,
) -> (AppStateView, Result<Seq<char>, AppErrorView>) {
    match s.file {
        PromptFileView::Unlocated => (s, Err(unlocated_error())),
        PromptFileView::Missing => (s, Err(file_missing_error())),
        PromptFileView::Unreadable { path, reason } => (
            s,
            Err(AppErrorView::Io { path, source: reason }),
        ),
        PromptFileView::Present(content) => match now {
            Err(e) => (s, Err(e)),
            Ok(timestamp) => {
                let row = imported_prompt(content, timestamp, stamp);
                (
                    AppStateView {
                        db: saved(s.db, row),
                        effects: s.effects.push(EffectView::SavePrompt(row)),
                        ..s
                    },
                    Ok(row.id),
                )
            },
        },
    }
}

/// Whether the first launch imports the file: the table is empty and the
/// file has content that is not blank.
pub open spec fn bootstraps(s: AppStateView) -> bool {
    s.db.len() == 0 && live_text(s.file) is Some
}

/// The first launch: the state afterwards, and the number of rows imported.
/// An unreadable file counts as none.
pub open spec fn bootstrap(
    s: AppStateView,
    now: Result<i64, AppErrorView>,
    stamp: Seq<char>,
) -> (AppStateView, Result<usize, AppErrorView>) {
    if s.db.len() > 0 {
        (s, Ok(0))
    } else if s.file is Unlocated {
        (s, Err(unlocated_error()))
    } else if !bootstraps(s) {
        (s, Ok(0))
    } else {
        match now {
            Err(e) => (s, Err(e)),
            Ok(timestamp) => {
                let row = auto_imported_prompt(live_text(s.file)->0, timestamp, stamp);
                (
                    AppStateView {
                        db: saved(s.db, row),
                        effects: s.effects.push(EffectView::SavePrompt(row)),
                        ..s
                    },
                    Ok(1),
                )
            },
        }
    }
}

} // verus!
