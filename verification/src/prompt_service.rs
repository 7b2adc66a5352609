//! The operations on prompts: listing, saving, deleting, activating, and
//! importing from the external file.

use crate::clock::{clock_failure, get_unix_timestamp, time_view};
use crate::database::{has_id, lemma_position, listing, position, saved, Database};
use crate::error::{AppError, AppErrorView};
use crate::laws::lemma_upsertion_keeps_one;
use crate::prompt::{text_view, Prompt, PromptView};
use crate::prompt_file::{content_view, read_result, PromptFile};
use crate::prompt_map::{map_entries, map_get, map_get_index, map_is_empty, map_len};
use crate::protocol::{
    activation, any_enabled, at_most_one_enabled, bootstrap, bootstraps, deletion,
    first_enabled, holds_content, import, is_first_enabled, live_text, reconciled, reconciles,
    switched, synthesized, upsertion, AppStateView, EffectView,
};
use crate::text::{decimal_string, is_blank, same_trimmed, trimmed};
use indexmap::IndexMap;
use vstd::prelude::*;

verus! {

/// One change to the table or to the file, for a host to carry out on
/// persistent storage.
#[derive(Debug, PartialEq, Eq)]
pub enum Effect {
    /// Insert the prompt, or put it in place of the row with its id.
    SavePrompt(Prompt),
    /// Remove the row with this id, if there is one.
    DeletePrompt(String),
    /// Clear the flag of every row.
    DisableAllPrompts,
    /// Set the flag of the row with this id.
    EnablePrompt(String),
    /// Replace the whole content of the file.
    WriteFile(String),
}

impl View for Effect {
    type V = EffectView;

    open spec fn view(&self) -> EffectView {
        match self {
            Effect::SavePrompt(p) => EffectView::SavePrompt(p@),
            Effect::DeletePrompt(id) => EffectView::DeletePrompt(id@),
            Effect::DisableAllPrompts => EffectView::DisableAllPrompts,
            Effect::EnablePrompt(id) => EffectView::EnablePrompt(id@),
            Effect::WriteFile(content) => EffectView::WriteFile(content@),
        }
    }
}

/// The values of a sequence of effects.
pub open spec fn effect_views(effects: Seq<Effect>) -> Seq<EffectView> {
    Seq::new(effects.len(), |i: int| effects[i]@)
}

/// The table, the file as it was last seen, and the changes made to both
/// since the state was set up, oldest first.
pub struct AppState {
    pub db: Database,
    pub file: PromptFile,
    pub effects: Vec<Effect>,
}

impl View for AppState {
    type V = AppStateView;

    open spec fn view(&self) -> AppStateView {
        AppStateView { db: self.db@, file: self.file@, effects: effect_views(self.effects@) }
    }
}

impl AppState {
    /// A state with the given table and file, and no change recorded.
    pub fn new(db: Database, file: PromptFile) -> (state: AppState)
        ensures
            state@ == (AppStateView { db: db@, file: file@, effects: Seq::empty() }),
    {
        let state = AppState { db, file, effects: Vec::new() };
        assert(effect_views(state.effects@) =~= Seq::empty());
        state
    }

    /// Hands out the recorded changes, oldest first, and forgets them.
    pub fn take_effects(&mut self) -> (taken: Vec<Effect>)
        ensures
            effect_views(taken@) == old(self)@.effects,
            final(self)@ == (AppStateView { effects: Seq::empty(), ..old(self)@ }),
    {
        let mut taken: Vec<Effect> = Vec::new();
        std::mem::swap(&mut taken, &mut self.effects);
        assert(effect_views(self.effects@) =~= Seq::empty());
        taken
    }

    fn record(&mut self, effect: Effect)
        ensures
            final(self)@ == (AppStateView {
                effects: old(self)@.effects.push(effect@),
                ..old(self)@
            }),
    {
        self.effects.push(effect);
        assert(effect_views(self.effects@) =~= effect_views(old(self).effects@).push(effect@));
    }

    fn save(&mut self, prompt: Prompt)
        ensures
            final(self)@ == (AppStateView {
                db: saved(old(self)@.db, prompt@),
                effects: old(self)@.effects.push(EffectView::SavePrompt(prompt@)),
                ..old(self)@
            }),
    {
        self.db.save_prompt(&prompt);
        self.record(Effect::SavePrompt(prompt));
    }
}

/// The value of a result without a payload.
pub open spec fn unit_view(r: Result<(), AppError>) -> Result<(), AppErrorView> {
    match r {
        Ok(_) => Ok(()),
        Err(e) => Err(e@),
    }
}

/// The value of a result that carries a text.
pub open spec fn id_view(r: Result<String, AppError>) -> Result<Seq<char>, AppErrorView> {
    match r {
        Ok(id) => Ok(id@),
        Err(e) => Err(e@),
    }
}

/// The value of a result that carries a count.
pub open spec fn count_view(r: Result<usize, AppError>) -> Result<usize, AppErrorView> {
    match r {
        Ok(n) => Ok(n),
        Err(e) => Err(e@),
    }
}

/// The first enabled prompt of a listing.
fn find_enabled(prompts: &IndexMap<String, Prompt>) -> (found: Option<Prompt>)
    ensures
        match found {
            Some(p) => exists|i: int|
                0 <= i < map_entries(*prompts).len() && (#[trigger] map_entries(*prompts)[i]).1
                    == p@ && p@.enabled && forall|j: int|
                    0 <= j < i ==> !(#[trigger] map_entries(*prompts)[j]).1.enabled,
            None => forall|i: int|
                0 <= i < map_entries(*prompts).len() ==> !(#[trigger] map_entries(
                    *prompts,
                )[i]).1.enabled,
        },
{
    let n = map_len(prompts);
    let mut i: usize = 0;
    while i < n
        invariant
            i <= n,
            n == map_entries(*prompts).len(),
            forall|j: int| 0 <= j < i ==> !(#[trigger] map_entries(*prompts)[j]).1.enabled,
        decreases n - i,
    {
        match map_get_index(prompts, i) {
            Some((_, p)) => {
                if p.enabled {
                    let found = p.clone();
                    assert(map_entries(*prompts)[i as int].1 == found@);
                    return Some(found);
                }
            },
            None => {},
        }
        i += 1;
    }
    None
}

/// Whether some prompt of a listing has the content `text`, both trimmed.
fn content_listed(prompts: &IndexMap<String, Prompt>, text: &str) -> (r: bool)
    ensures
        r == exists|i: int|
            0 <= i < map_entries(*prompts).len() && trimmed(
                (#[trigger] map_entries(*prompts)[i]).1.content,
            ) == trimmed(text@),
{
    let n = map_len(prompts);
    let mut i: usize = 0;
    while i < n
        invariant
            i <= n,
            n == map_entries(*prompts).len(),
            forall|j: int|
                0 <= j < i ==> trimmed((#[trigger] map_entries(*prompts)[j]).1.content) != trimmed(
                    text@,
                ),
        decreases n - i,
    {
        match map_get_index(prompts, i) {
            Some((_, p)) => {
                if same_trimmed(p.content.as_str(), text) {
                    assert(trimmed(map_entries(*prompts)[i as int].1.content) == trimmed(text@));
                    return true;
                }
            },
            None => {},
        }
        i += 1;
    }
    false
}

/// Makes up a prompt from file content.
fn synthesize(
    prefix: &str,
    label: &str,
    note: &str,
    content: String,
    enabled: bool,
    timestamp: i64,
    stamp: &str,
) -> (p: Prompt)
    ensures
        p@ == synthesized(prefix@, label@, note@, content@, enabled, timestamp, stamp@),
{
    Prompt {
        id: String::from_str(prefix).concat(decimal_string(timestamp).as_str()),
        name: String::from_str(label).concat(" ").concat(stamp),
        content,
        description: Some(String::from_str(note)),
        enabled,
        created_at: Some(timestamp),
        updated_at: Some(timestamp),
    }
}

/// The content of the file that an activation has to preserve.
fn live_content(file: &PromptFile) -> (live: Option<String>)
    ensures
        text_view(live) == live_text(file@),
{
    match file {
        PromptFile::Present(content) => {
            if is_blank(content.as_str()) {
                None
            } else {
                Some(content.clone())
            }
        },
        _ => None,
    }
}

/// The first enabled row of a table is the one that a search from the top
/// finds.
proof fn lemma_first_enabled(rows: Seq<PromptView>, i: int)
    requires
        is_first_enabled(rows, i),
    ensures
        any_enabled(rows),
        first_enabled(rows) == rows[i],
{
    let c = choose|c: int| is_first_enabled(rows, c);
    assert(is_first_enabled(rows, c));
    if c < i {
        assert(!rows[c].enabled);
    }
    if i < c {
        assert(!rows[i].enabled);
    }
}

/// What an activation keeps of the live file content before it switches.
enum Kept {
    /// Nothing is to be saved.
    Nothing,
    /// The first enabled prompt takes the content.
    Backfill { prompt: Prompt, live: String },
    /// A new backup takes the content.
    Backup { live: String },
}

/// Decides what an activation keeps of the live file content: it goes into
/// the first enabled prompt, or else into a new backup unless some prompt
/// has the content already.
fn kept(state: &AppState) -> (k: Kept)
    ensures
        match k {
            Kept::Nothing => !reconciles(state@.db, state@.file),
            Kept::Backfill { prompt, live } => reconciles(state@.db, state@.file) && any_enabled(
                state@.db,
            ) && prompt@ == first_enabled(state@.db) && live_text(state@.file) == Some(live@),
            Kept::Backup { live } => reconciles(state@.db, state@.file) && !any_enabled(state@.db)
                && live_text(state@.file) == Some(live@),
        },
{
    let live = match live_content(&state.file) {
        Some(live) => live,
        None => {
            return Kept::Nothing;
        },
    };
    let prompts = state.db.get_prompts();
    let ghost rows = state@.db;
    match find_enabled(&prompts) {
        Some(prompt) => {
            proof {
                let i = choose|i: int|
                    0 <= i < map_entries(prompts).len() && (#[trigger] map_entries(prompts)[i]).1
                        == prompt@ && prompt@.enabled && forall|j: int|
                        0 <= j < i ==> !(#[trigger] map_entries(prompts)[j]).1.enabled;
                assert forall|j: int| 0 <= j < i implies !(#[trigger] rows[j]).enabled by {
                    assert(map_entries(prompts)[j].1 == rows[j]);
                }
                lemma_first_enabled(rows, i);
            }
            Kept::Backfill { prompt, live }
        },
        None => {
            proof {
                assert forall|i: int| 0 <= i < rows.len() implies !(#[trigger] rows[i]).enabled by {
                    assert(map_entries(prompts)[i].1 == rows[i]);
                }
                if holds_content(rows, live@) {
                    let i = choose|i: int|
                        0 <= i < rows.len() && trimmed((#[trigger] rows[i]).content) == trimmed(
                            live@,
                        );
                    assert(map_entries(prompts)[i].1 == rows[i]);
                }
            }
            let listed = content_listed(&prompts, live.as_str());
            proof {
                if listed {
                    let i = choose|i: int|
                        0 <= i < map_entries(prompts).len() && trimmed(
                            (#[trigger] map_entries(prompts)[i]).1.content,
                        ) == trimmed(live@);
                    assert(map_entries(prompts)[i].1 == rows[i]);
                }
            }
            if listed {
                Kept::Nothing
            } else {
                Kept::Backup { live }
            }
        },
    }
}

/// Whether a clock reading is a time, or else the error of a clock that
/// gave none.
pub open spec fn clock_reading(now: Result<i64, AppErrorView>) -> bool {
    now matches Err(e) ==> exists|reason: Seq<char>| e == clock_failure(reason)
}

/// The clock's reading for an operation: the clock is read only where the
/// operation makes a row, which alone looks at the reading.
fn reading_for(makes_row: bool) -> (now: Result<i64, AppError>)
    ensures
        clock_reading(time_view(now)),
{
    if makes_row {
        get_unix_timestamp()
    } else {
        Ok(0)
    }
}

/// The service that keeps the table and the file in step.
pub struct PromptService;

impl PromptService {
    /// All prompts in listing order, each under its id.
    pub fn get_prompts(state: &AppState) -> (map: IndexMap<String, Prompt>)
        ensures
            map_entries(map) == listing(state@.db),
    {
        state.db.get_prompts()
    }

    /// The content of the external file, or nothing where no file is there.
    pub fn get_current_file_content(state: &AppState) -> (r: Result<Option<String>, AppError>)
        ensures
            content_view(r) == read_result(state@.file),
    {
        state.file.read()
    }

    /// Saves `prompt`. An enabled prompt becomes the one enabled prompt:
    /// every other is disabled first, and its content is written to the
    /// file.
    pub fn upsert_prompt(state: &mut AppState, prompt: Prompt) -> (r: Result<(), AppError>)
        ensures
            (final(state)@, unit_view(r)) == upsertion(old(state)@, prompt@),
            prompt@.enabled || at_most_one_enabled(old(state)@.db) ==> at_most_one_enabled(
                final(state)@.db,
            ),
    {
        proof {
            use_type_invariant(&state.db);
            if prompt@.enabled || at_most_one_enabled(state@.db) {
                lemma_upsertion_keeps_one(state@, prompt@);
            }
        }
        let is_enabled = prompt.enabled;
        let content = prompt.content.clone();
        if is_enabled {
            state.db.disable_all_prompts();
            state.record(Effect::DisableAllPrompts);
        }
        state.save(prompt);
        if is_enabled {
            if !state.file.is_located() {
                return Err(AppError::Config(String::from_str("Cannot find home directory")));
            }
            state.file.write(content.as_str());
            state.record(Effect::WriteFile(content));
        }
        Ok(())
    }

    /// Deletes the prompt `id`, unless it is enabled. Deleting an id that no
    /// prompt has changes nothing in the table.
    pub fn delete_prompt(state: &mut AppState, id: &str) -> (r: Result<(), AppError>)
        ensures
            (final(state)@, unit_view(r)) == deletion(old(state)@, id@),
    {
        let prompts = state.db.get_prompts();
        match map_get(&prompts, id) {
            Some(prompt) => {
                proof {
                    let i = choose|i: int|
                        0 <= i < map_entries(prompts).len() && #[trigger] map_entries(prompts)[i]
                            == (id@, prompt@);
                    lemma_position(state@.db, id@, i);
                }
                if prompt.enabled {
                    return Err(
                        AppError::InvalidInput(String::from_str("Cannot delete enabled prompt")),
                    );
                }
            },
            None => {
                proof {
                    if has_id(state@.db, id@) {
                        let i = position(state@.db, id@);
                        assert(map_entries(prompts)[i].0 == id@);
                    }
                }
            },
        }
        state.db.delete_prompt(id);
        state.record(Effect::DeletePrompt(id.to_owned()));
        Ok(())
    }

    /// Saves the row that keeps the live file content, where there is any to
    /// keep. Fails, and saves nothing, where a row is to be saved and the
    /// clock gave no time.
    fn reconcile(state: &mut AppState, now: Result<i64, AppError>, stamp: &str) -> (r: Result<
        (),
        AppError,
    >)
        ensures
            r is Err <==> reconciles(old(state)@.db, old(state)@.file) && now is Err,
            r matches Err(e) ==> now matches Err(given) && e@ == given@ && final(state)@ == old(
                state,
            )@,
            r is Ok ==> final(state)@ == reconciled(old(state)@, now->Ok_0, stamp@),
    {
        match kept(state) {
            Kept::Nothing => Ok(()),
            Kept::Backfill { prompt, live } => {
                let timestamp = match now {
                    Ok(timestamp) => timestamp,
                    Err(e) => {
                        return Err(e);
                    },
                };
                let mut updated = prompt;
                updated.content = live;
                updated.updated_at = Some(timestamp);
                state.save(updated);
                Ok(())
            },
            Kept::Backup { live } => {
                let timestamp = match now {
                    Ok(timestamp) => timestamp,
                    Err(e) => {
                        return Err(e);
                    },
                };
                let backup = synthesize(
                    "backup-",
                    "Original Prompt",
                    "Auto-backup of original prompt",
                    live,
                    false,
                    timestamp,
                    stamp,
                );
                state.save(backup);
                Ok(())
            },
        }
    }

    /// Disables every prompt; then writes the content of the prompt `id` to
    /// the file and enables it, or fails where no prompt has that id.
    fn switch(state: &mut AppState, id: &str) -> (r: Result<(), AppError>)
        ensures
            (final(state)@, unit_view(r)) == switched(old(state)@, id@),
    {
        state.db.disable_all_prompts();
        state.record(Effect::DisableAllPrompts);
        let prompts = state.db.get_prompts();
        match map_get(&prompts, id) {
            Some(prompt) => {
                proof {
                    let i = choose|i: int|
                        0 <= i < map_entries(prompts).len() && #[trigger] map_entries(prompts)[i]
                            == (id@, prompt@);
                    lemma_position(state@.db, id@, i);
                }
                let content = prompt.content.clone();
                state.file.write(content.as_str());
                state.record(Effect::WriteFile(content));
                state.db.enable_prompt(id);
                state.record(Effect::EnablePrompt(id.to_owned()));
                Ok(())
            },
            None => {
                proof {
                    if has_id(state@.db, id@) {
                        let i = position(state@.db, id@);
                        assert(map_entries(prompts)[i].0 == id@);
                    }
                }
                Err(
                    AppError::InvalidInput(
                        String::from_str("Prompt ").concat(id).concat(" not found"),
                    ),
                )
            },
        }
    }

    /// Whether activating a prompt now would first save a row that keeps
    /// the live file content. Only then are the clock's reading and the
    /// local time looked at.
    pub fn enable_makes_row(state: &AppState) -> (r: bool)
        ensures
            r == reconciles(state@.db, state@.file),
    {
        match kept(state) {
            Kept::Nothing => false,
            _ => true,
        }
    }

    /// Whether an import now would make a row: whether the file can be
    /// read.
    pub fn import_makes_row(state: &AppState) -> (r: bool)
        ensures
            r == (state@.file is Present),
    {
        match &state.file {
            PromptFile::Present(_) => true,
            _ => false,
        }
    }

    /// Whether the import of the first launch would make a row now.
    pub fn first_launch_makes_row(state: &AppState) -> (r: bool)
        ensures
            r == bootstraps(state@),
    {
        let existing = state.db.get_prompts();
        map_is_empty(&existing) && live_content(&state.file).is_some()
    }

    /// Activates the prompt `id` with the given reading of the clock and
    /// the local time as text: the live file content is kept first, then
    /// every prompt is disabled, the target's content is written to the
    /// file and the target is enabled. A file that cannot be read ends the
    /// activation before anything is changed.
    pub fn enable_prompt_at(
        state: &mut AppState,
        id: &str,
        now: Result<i64, AppError>,
        stamp: &str,
    ) -> (r: Result<(), AppError>)
        ensures
            (final(state)@, unit_view(r)) == activation(old(state)@, id@, time_view(now), stamp@),
    {
        match state.file.failure() {
            Some(e) => {
                return Err(e);
            },
            None => {},
        }
        match Self::reconcile(state, now, stamp) {
            Ok(_) => {},
            Err(e) => {
                return Err(e);
            },
        }
        Self::switch(state, id)
    }

    /// Activates the prompt `id`, reading the clock for the row that keeps
    /// the live file content; `stamp` is the local time as text, for the
    /// name of a backup.
    pub fn enable_prompt(state: &mut AppState, id: &str, stamp: &str) -> (r: Result<(), AppError>)
        ensures
            exists|now: Result<i64, AppErrorView>|
                clock_reading(now) && (final(state)@, unit_view(r)) == #[trigger] activation(
                    old(state)@,
                    id@,
                    now,
                    stamp@,
                ),
    {
        let now = reading_for(Self::enable_makes_row(state));
        let ghost given = time_view(now);
        let r = Self::enable_prompt_at(state, id, now, stamp);
        assert(clock_reading(given) && (state@, unit_view(r)) == activation(
            old(state)@,
            id@,
            given,
            stamp@,
        ));
        r
    }

    /// Imports the file as a new disabled prompt, with the given reading of
    /// the clock and the local time as text, and returns the new id.
    pub fn import_from_file_at(
        state: &mut AppState,
        now: Result<i64, AppError>,
        stamp: &str,
    ) -> (r: Result<String, AppError>)
        ensures
            (final(state)@, id_view(r)) == import(old(state)@, time_view(now), stamp@),
    {
        let content = match state.file.read() {
            Ok(Some(content)) => content,
            Ok(None) => {
                return Err(AppError::Message(String::from_str("AGENTS.md file not found")));
            },
            Err(e) => {
                return Err(e);
            },
        };
        let timestamp = match now {
            Ok(timestamp) => timestamp,
            Err(e) => {
                return Err(e);
            },
        };
        let prompt = synthesize(
            "imported-",
            "Imported Prompt",
            "Imported from existing AGENTS.md",
            content,
            false,
            timestamp,
            stamp,
        );
        let id = prompt.id.clone();
        state.save(prompt);
        Ok(id)
    }

    /// Imports the file as a new disabled prompt and returns the new id;
    /// `stamp` is the local time as text, for the prompt's name.
    pub fn import_from_file(state: &mut AppState, stamp: &str) -> (r: Result<String, AppError>)
        ensures
            exists|now: Result<i64, AppErrorView>|
                clock_reading(now) && (final(state)@, id_view(r)) == #[trigger] import(
                    old(state)@,
                    now,
                    stamp@,
                ),
    {
        let now = reading_for(Self::import_makes_row(state));
        let ghost given = time_view(now);
        let r = Self::import_from_file_at(state, now, stamp);
        assert(clock_reading(given) && (state@, id_view(r)) == import(old(state)@, given, stamp@));
        r
    }

    /// The import of the first launch, with the given reading of the clock
    /// and the local time as text: where the table is empty and the file
    /// has content, the content becomes the one, enabled, prompt. Returns
    /// the number of prompts made.
    pub fn import_on_first_launch_at(
        state: &mut AppState,
        now: Result<i64, AppError>,
        stamp: &str,
    ) -> (r: Result<usize, AppError>)
        ensures
            (final(state)@, count_view(r)) == bootstrap(old(state)@, time_view(now), stamp@),
    {
        let existing = state.db.get_prompts();
        if !map_is_empty(&existing) {
            return Ok(0);
        }
        if !state.file.is_located() {
            return Err(AppError::Config(String::from_str("Cannot find home directory")));
        }
        let content = match live_content(&state.file) {
            Some(content) => content,
            None => {
                return Ok(0);
            },
        };
        let timestamp = match now {
            Ok(timestamp) => timestamp,
            Err(e) => {
                return Err(e);
            },
        };
        let prompt = synthesize(
            "auto-imported-",
            "Auto-imported Prompt",
            "Automatically imported on first launch",
            content,
            true,
            timestamp,
            stamp,
        );
        state.save(prompt);
        Ok(1)
    }

    /// The import of the first launch; `stamp` is the local time as text,
    /// for the prompt's name.
    pub fn import_on_first_launch(state: &mut AppState, stamp: &str) -> (r: Result<
        usize,
        AppError,
    >)
        ensures
            exists|now: Result<i64, AppErrorView>|
                clock_reading(now) && (final(state)@, count_view(r)) == #[trigger] bootstrap(
                    old(state)@,
                    now,
                    stamp@,
                ),
    {
        let now = reading_for(Self::first_launch_makes_row(state));
        let ghost given = time_view(now);
        let r = Self::import_on_first_launch_at(state, now, stamp);
        assert(clock_reading(given) && (state@, count_view(r)) == bootstrap(
            old(state)@,
            given,
            stamp@,
        ));
        r
    }
}

} // verus!
