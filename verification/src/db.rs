//! The store: the variants, the sessions, and the turn log of each session.
//!
//! The log of a session holds one entry for each turn that was committed: the
//! record of the play and the state it led to. The session's turn pointer is
//! the number of its entries, so the pointer can never be ahead of what the
//! log holds. A turn is appended as a whole or not at all, and only if it is
//! the turn that comes next; removing the last turn is the inverse.
//!
//! This store lives in memory. It decides what is stored and what is read
//! back; writing the same rows to a database is left to the program around
//! the crate, which gets the rows from [`DbController::add_state`] and
//! [`DbController::add_play_record`].

use vstd::prelude::*;
use vstd::string::*;
use crate::config::{GameSettings, GameSettingsView, Player, PlayerView};
use crate::error::DbError;
use crate::game::{new_game, turn_views, Game, GameView, Turn, TurnView};
use crate::pieces::Side;
use crate::repetitions::Repetitions;
use crate::play::{PlacedPiece, Play, PlayEffects, PlayRecord, PlayRecordView};
use crate::state::{GameState, GameStateView};
use crate::status::{GameOutcome, GameStatus};
use crate::variants::{ootb_variants, variant_views, Variant, VariantView};

verus! {

/// The row of a state as it is written to a database.
#[derive(Clone, Debug, PartialEq, Eq)]
pub struct StateRow {
    pub game_id: i64,
    pub turn: i64,
    pub board: String,
    pub side_to_play: Side,
    pub repetitions: Repetitions,
    pub plays_since_capture: i64,
    pub status: GameStatus,
}

/// The row of a play's record as it is written to a database.
#[derive(Clone, Debug, PartialEq, Eq)]
pub struct PlayRecordRow {
    pub game_id: i64,
    pub turn: i64,
    pub side: Side,
    pub play: Play,
    pub captures: Vec<PlacedPiece>,
    pub game_outcome: Option<GameOutcome>,
}

/// The row of a session: its number, its settings but for the variant, of
/// which it holds the name, and its turn pointer.
#[derive(Debug)]
pub struct GameRow {
    pub id: i64,
    pub name: String,
    pub variant_name: String,
    pub turn: usize,
    pub attacker: Player,
    pub defender: Player,
}

/// What the store holds of one session: its row and its log.
#[derive(Debug)]
pub struct SavedGame {
    pub row: GameRow,
    pub turns: Vec<Turn>,
}

/// A stored session as a value of mathematics.
pub struct SavedGameView {
    pub id: i64,
    pub name: Seq<char>,
    pub variant_name: Seq<char>,
    pub turn: nat,
    pub attacker: PlayerView,
    pub defender: PlayerView,
    pub turns: Seq<TurnView>,
}

impl View for SavedGame {
    type V = SavedGameView;

    open spec fn view(&self) -> SavedGameView {
        SavedGameView {
            id: self.row.id,
            name: self.row.name@,
            variant_name: self.row.variant_name@,
            turn: self.row.turn as nat,
            attacker: self.row.attacker@,
            defender: self.row.defender@,
            turns: turn_views(self.turns@),
        }
    }
}

/// What a list of stored sessions shows of one: who plays it, under which
/// rules, and whose turn it is.
#[derive(Debug, PartialEq, Eq)]
pub struct SavedGameInfo {
    pub id: i64,
    pub game_name: String,
    pub variant_name: String,
    pub attacker: Player,
    pub defender: Player,
    pub side_to_play: Side,
}

/// The stored sessions of a sequence as values of mathematics.
pub open spec fn saved_views(games: Seq<SavedGame>) -> Seq<SavedGameView> {
    games.map_values(|g: SavedGame| g@)
}

/// The store as a value of mathematics.
pub struct DbView {
    /// The variants, in the order in which they were added.
    pub variants: Seq<VariantView>,
    /// The sessions, in the order in which they were added.
    pub games: Seq<SavedGameView>,
    /// The number that the next session gets.
    pub next_id: i64,
    /// The whole games that were stored under numbers of their own.
    pub snapshots: Seq<SnapshotView>,
}

/// A whole game with its two players, stored under a number.
#[derive(Debug)]
pub struct Snapshot {
    pub id: usize,
    pub game: Game,
    pub attacker: Player,
    pub defender: Player,
}

/// A stored whole game as a value of mathematics.
pub struct SnapshotView {
    pub id: usize,
    pub game: GameView,
    pub attacker: PlayerView,
    pub defender: PlayerView,
}

impl View for Snapshot {
    type V = SnapshotView;

    open spec fn view(&self) -> SnapshotView {
        SnapshotView {
            id: self.id,
            game: self.game@,
            attacker: self.attacker@,
            defender: self.defender@,
        }
    }
}

/// The stored whole games of a sequence as values of mathematics.
pub open spec fn snapshot_views(snapshots: Seq<Snapshot>) -> Seq<SnapshotView> {
    snapshots.map_values(|s: Snapshot| s@)
}

/// The place of the first stored whole game of the given number, or the
/// number of them where there is none.
pub open spec fn snapshot_index(snapshots: Seq<SnapshotView>, id: usize) -> nat
    decreases snapshots.len(),
{
    if snapshots.len() == 0 || snapshots[0].id == id {
        0
    } else {
        1 + snapshot_index(snapshots.drop_first(), id)
    }
}

/// The largest number under which a whole game is stored; 0 where none is.
pub open spec fn largest_id(snapshots: Seq<SnapshotView>) -> nat
    decreases snapshots.len(),
{
    if snapshots.len() == 0 {
        0
    } else if snapshots.last().id > largest_id(snapshots.drop_last()) {
        snapshots.last().id as nat
    } else {
        largest_id(snapshots.drop_last())
    }
}

/// The place of the first variant of the given name, or the number of
/// variants where there is none.
pub open spec fn variant_index(variants: Seq<VariantView>, name: Seq<char>) -> nat
    decreases variants.len(),
{
    if variants.len() == 0 || variants[0].name == name {
        0
    } else {
        1 + variant_index(variants.drop_first(), name)
    }
}

/// The place of the first session of the given number, or the number of
/// sessions where there is none.
pub open spec fn game_index(games: Seq<SavedGameView>, id: i64) -> nat
    decreases games.len(),
{
    if games.len() == 0 || games[0].id == id {
        0
    } else {
        1 + game_index(games.drop_first(), id)
    }
}

impl SavedGameView {
    /// Whether the turn pointer is the number of turns in the log.
    pub open spec fn wf(self) -> bool {
        self.turn == self.turns.len()
    }

    /// The session with one more turn in its log, and the pointer moved on.
    pub open spec fn appended(self, turn: TurnView) -> SavedGameView {
        SavedGameView { turn: self.turn + 1, turns: self.turns.push(turn), ..self }
    }

    /// The session without the last turn of its log, and the pointer moved
    /// back.
    pub open spec fn truncated(self) -> SavedGameView {
        SavedGameView { turn: (self.turn - 1) as nat, turns: self.turns.drop_last(), ..self }
    }
}

impl DbView {
    /// The variant of the given name, if the store has one.
    pub open spec fn variant(self, name: Seq<char>) -> Option<VariantView> {
        let i = variant_index(self.variants, name);
        if i < self.variants.len() {
            Some(self.variants[i as int])
        } else {
            None
        }
    }

    /// The session of the given number, if the store has one.
    pub open spec fn game(self, id: i64) -> Option<SavedGameView> {
        let i = game_index(self.games, id);
        if i < self.games.len() {
            Some(self.games[i as int])
        } else {
            None
        }
    }

    /// Whether the store is well formed: every session's pointer is the
    /// number of turns in its log, its number is below the next one to be
    /// given, no two sessions share a number, and every whole game that is
    /// stored is well formed.
    pub open spec fn wf(self) -> bool {
        &&& forall|i: int| 0 <= i < self.snapshots.len() ==> (#[trigger] self.snapshots[i]).game.wf()
        &&& forall|i: int| 0 <= i < self.games.len() ==> (#[trigger] self.games[i]).wf()
        &&& forall|i: int| 0 <= i < self.games.len() ==> (#[trigger] self.games[i]).id < self.next_id
        &&& forall|i: int, j: int|
            0 <= i < j < self.games.len() ==> (#[trigger] self.games[i]).id != (
            #[trigger] self.games[j]).id
    }

    /// The store with the session at a place replaced.
    pub open spec fn with_game(self, i: int, game: SavedGameView) -> DbView {
        DbView { games: self.games.update(i, game), ..self }
    }

    /// The store after a variant was added: a variant whose name is taken is
    /// not added again.
    pub open spec fn with_variant(self, variant: VariantView) -> DbView {
        if self.variant(variant.name) is Some {
            self
        } else {
            DbView { variants: self.variants.push(variant), ..self }
        }
    }

    /// The store after several variants were added, one after the other.
    pub open spec fn with_variants(self, variants: Seq<VariantView>) -> DbView
        decreases variants.len(),
    {
        if variants.len() == 0 {
            self
        } else {
            self.with_variants(variants.drop_last()).with_variant(variants.last())
        }
    }

    /// The settings of a session: its row, with the variant that the store
    /// holds under the row's name for it.
    pub open spec fn settings(self, id: i64) -> Option<GameSettingsView> {
        match self.game(id) {
            Some(g) => match self.variant(g.variant_name) {
                Some(variant) => Some(
                    GameSettingsView {
                        variant,
                        name: g.name,
                        attacker: g.attacker,
                        defender: g.defender,
                    },
                ),
                None => None,
            },
            None => None,
        }
    }

    /// The game that the log of a session stands for: the game that the
    /// engine sets up for the session's variant, with the turns of the log.
    /// The state of that game is the state of the last entry of the log; it
    /// is not played again from the start.
    pub open spec fn logged_game(self, id: i64) -> Result<GameView, DbError> {
        match (self.game(id), self.settings(id)) {
            (Some(g), Some(settings)) => match new_game(
                settings.variant.rules,
                settings.variant.starting_board,
            ) {
                Some(fresh) => if fresh.with_turns(g.turns).wf() {
                    Ok(fresh.with_turns(g.turns))
                } else {
                    Err(DbError::Parse)
                },
                None => Err(DbError::Parse),
            },
            _ => Err(DbError::RowNotFound),
        }
    }

    /// What appending a turn to the log of a session gives: the new store, or
    /// the reason for which nothing was written. The turn is written only if
    /// its state carries the turn that comes next.
    pub open spec fn append_turn(self, id: i64, turn: TurnView) -> Result<DbView, DbError> {
        let i = game_index(self.games, id);
        if i >= self.games.len() {
            Err(DbError::RowNotFound)
        } else if turn.state.turn != self.games[i as int].turn + 1 {
            Err(DbError::OutOfOrder)
        } else {
            Ok(self.with_game(i as int, self.games[i as int].appended(turn)))
        }
    }

    /// What removing the last turn from the log of a session gives: the new
    /// store, or the reason for which nothing was removed.
    pub open spec fn truncate_last_turn(self, id: i64) -> Result<DbView, DbError> {
        let i = game_index(self.games, id);
        if i >= self.games.len() {
            Err(DbError::RowNotFound)
        } else if self.games[i as int].turns.len() == 0 {
            Err(DbError::OutOfOrder)
        } else {
            Ok(self.with_game(i as int, self.games[i as int].truncated()))
        }
    }
}

impl DbView {
    /// The empty store.
    pub open spec fn empty() -> DbView {
        DbView {
            variants: Seq::empty(),
            games: Seq::empty(),
            next_id: 1,
            snapshots: Seq::empty(),
        }
    }

    /// The row and the empty log with which a session starts.
    pub open spec fn first_entry(self, settings: GameSettingsView) -> SavedGameView {
        SavedGameView {
            id: self.next_id,
            name: settings.name,
            variant_name: settings.variant.name,
            turn: 0,
            attacker: settings.attacker,
            defender: settings.defender,
            turns: Seq::empty(),
        }
    }

    /// What adding a session gives: the new store, in which the session's
    /// variant is stored too unless its name was taken, or the reason for
    /// which nothing was added.
    pub open spec fn add_game(self, settings: GameSettingsView) -> Result<DbView, DbError> {
        if self.next_id == i64::MAX {
            Err(DbError::Range)
        } else {
            Ok(
                DbView {
                    variants: self.with_variant(settings.variant).variants,
                    games: self.games.push(self.first_entry(settings)),
                    next_id: (self.next_id + 1) as i64,
                    ..self
                },
            )
        }
    }

    /// What putting a session back into the store gives, with the number it
    /// had and the log it had: the new store, or the reason for which nothing
    /// was put back. Sessions are put back in the order of their numbers.
    pub open spec fn restore_game(
        self,
        id: i64,
        settings: GameSettingsView,
        turns: Seq<TurnView>,
    ) -> Result<DbView, DbError> {
        if id < self.next_id {
            Err(DbError::OutOfOrder)
        } else if id == i64::MAX {
            Err(DbError::Range)
        } else {
            Ok(
                DbView {
                    variants: self.with_variant(settings.variant).variants,
                    games: self.games.push(
                        SavedGameView {
                            id,
                            turn: turns.len(),
                            turns,
                            ..self.first_entry(settings)
                        },
                    ),
                    next_id: (id + 1) as i64,
                    ..self
                },
            )
        }
    }

    /// The whole game that is stored under a number, if one is.
    pub open spec fn snapshot(self, id: usize) -> Option<SnapshotView> {
        let i = snapshot_index(self.snapshots, id);
        if i < self.snapshots.len() {
            Some(self.snapshots[i as int])
        } else {
            None
        }
    }

    /// The store after a whole game was stored under a number: it takes the
    /// place of the one that was stored under the number, or comes last.
    pub open spec fn with_snapshot(self, snapshot: SnapshotView) -> DbView {
        let i = snapshot_index(self.snapshots, snapshot.id);
        if i < self.snapshots.len() {
            DbView { snapshots: self.snapshots.update(i as int, snapshot), ..self }
        } else {
            DbView { snapshots: self.snapshots.push(snapshot), ..self }
        }
    }

    /// The store without the session of the given number.
    pub open spec fn delete_game(self, id: i64) -> Result<DbView, DbError> {
        let i = game_index(self.games, id);
        if i >= self.games.len() {
            Err(DbError::RowNotFound)
        } else {
            Ok(DbView { games: self.games.remove(i as int), ..self })
        }
    }
}

/// Where no variant before `k` has the name and the one at `k` has it, or `k`
/// is the number of variants, the first variant of that name is at `k`.
proof fn variant_index_is(variants: Seq<VariantView>, name: Seq<char>, k: int)
    requires
        0 <= k <= variants.len(),
        forall|j: int| 0 <= j < k ==> variants[j].name != name,
        k == variants.len() || variants[k].name == name,
    ensures
        variant_index(variants, name) == k,
    decreases k,
{
    if k > 0 {
        let rest = variants.drop_first();
        assert forall|j: int| 0 <= j < k - 1 implies rest[j].name != name by {
            assert(rest[j] == variants[j + 1]);
        }
        if k < variants.len() {
            assert(rest[k - 1] == variants[k]);
        }
        variant_index_is(rest, name, k - 1);
    }
}

/// Where no stored whole game before `k` has the number and the one at `k`
/// has it, or `k` is the number of them, the first of that number is at `k`.
proof fn snapshot_index_is(snapshots: Seq<SnapshotView>, id: usize, k: int)
    requires
        0 <= k <= snapshots.len(),
        forall|j: int| 0 <= j < k ==> snapshots[j].id != id,
        k == snapshots.len() || snapshots[k].id == id,
    ensures
        snapshot_index(snapshots, id) == k,
    decreases k,
{
    if k > 0 {
        let rest = snapshots.drop_first();
        assert forall|j: int| 0 <= j < k - 1 implies rest[j].id != id by {
            assert(rest[j] == snapshots[j + 1]);
        }
        if k < snapshots.len() {
            assert(rest[k - 1] == snapshots[k]);
        }
        snapshot_index_is(rest, id, k - 1);
    }
}

/// Where no session before `k` has the number and the one at `k` has it, or
/// `k` is the number of sessions, the first session of that number is at `k`.
proof fn game_index_is(games: Seq<SavedGameView>, id: i64, k: int)
    requires
        0 <= k <= games.len(),
        forall|j: int| 0 <= j < k ==> games[j].id != id,
        k == games.len() || games[k].id == id,
    ensures
        game_index(games, id) == k,
    decreases k,
{
    if k > 0 {
        let rest = games.drop_first();
        assert forall|j: int| 0 <= j < k - 1 implies rest[j].id != id by {
            assert(rest[j] == games[j + 1]);
        }
        if k < games.len() {
            assert(rest[k - 1] == games[k]);
        }
        game_index_is(rest, id, k - 1);
    }
}

/// The row of a state as a value of mathematics.
pub struct StateRowView {
    pub game_id: i64,
    pub turn: i64,
    pub board: Seq<char>,
    pub side_to_play: Side,
    pub repetitions: Repetitions,
    pub plays_since_capture: i64,
    pub status: GameStatus,
}

impl View for StateRow {
    type V = StateRowView;

    open spec fn view(&self) -> StateRowView {
        StateRowView {
            game_id: self.game_id,
            turn: self.turn,
            board: self.board@,
            side_to_play: self.side_to_play,
            repetitions: self.repetitions,
            plays_since_capture: self.plays_since_capture,
            status: self.status,
        }
    }
}

/// The row of a play's record as a value of mathematics.
pub struct PlayRecordRowView {
    pub game_id: i64,
    pub turn: i64,
    pub side: Side,
    pub play: Play,
    pub captures: Seq<PlacedPiece>,
    pub game_outcome: Option<GameOutcome>,
}

impl View for PlayRecordRow {
    type V = PlayRecordRowView;

    open spec fn view(&self) -> PlayRecordRowView {
        PlayRecordRowView {
            game_id: self.game_id,
            turn: self.turn,
            side: self.side,
            play: self.play,
            captures: self.captures@,
            game_outcome: self.game_outcome,
        }
    }
}

/// The row that is written for a state of a session: `None` where the turn
/// or the count of plays does not fit the column.
pub open spec fn state_row(game_id: i64, state: GameStateView) -> Option<StateRowView> {
    if state.turn <= i64::MAX && state.plays_since_capture <= i64::MAX {
        Some(
            StateRowView {
                game_id,
                turn: state.turn as i64,
                board: state.board,
                side_to_play: state.side_to_play,
                repetitions: state.repetitions,
                plays_since_capture: state.plays_since_capture as i64,
                status: state.status,
            },
        )
    } else {
        None
    }
}

/// The state that a row holds: `None` where a number of the row is negative
/// or too large for a count.
pub open spec fn row_state(row: StateRowView) -> Option<GameStateView> {
    if 0 <= row.turn <= usize::MAX && 0 <= row.plays_since_capture <= usize::MAX {
        Some(
            GameStateView {
                board: row.board,
                side_to_play: row.side_to_play,
                repetitions: row.repetitions,
                plays_since_capture: row.plays_since_capture as nat,
                status: row.status,
                turn: row.turn as nat,
            },
        )
    } else {
        None
    }
}

/// The row that is written for the record of a play of a session, under the
/// index of the turn that the play made.
pub open spec fn play_record_row(game_id: i64, turn: i64, record: PlayRecordView) -> PlayRecordRowView {
    PlayRecordRowView {
        game_id,
        turn,
        side: record.side,
        play: record.play,
        captures: record.captures,
        game_outcome: record.game_outcome,
    }
}

/// The record that a row holds.
pub open spec fn row_record(row: PlayRecordRowView) -> PlayRecordView {
    PlayRecordView {
        side: row.side,
        play: row.play,
        captures: row.captures,
        game_outcome: row.game_outcome,
    }
}

/// Whether the rows at a place are the two rows of one turn of a session:
/// both carry the session's number and the index of the turn, which is one
/// more than the place.
pub open spec fn rows_fit(
    game_id: i64,
    state: StateRowView,
    record: PlayRecordRowView,
    i: int,
) -> bool {
    &&& state.game_id == game_id
    &&& record.game_id == game_id
    &&& state.turn == i + 1
    &&& record.turn == i + 1
    &&& row_state(state) is Some
}

/// The turn that the two rows of a turn hold.
pub open spec fn rows_turn(state: StateRowView, record: PlayRecordRowView) -> TurnView {
    TurnView { record: row_record(record), state: row_state(state)->0 }
}

/// The rows of a sequence as values of mathematics.
pub open spec fn state_row_views(rows: Seq<StateRow>) -> Seq<StateRowView> {
    rows.map_values(|r: StateRow| r@)
}

/// The rows of a sequence as values of mathematics.
pub open spec fn record_row_views(rows: Seq<PlayRecordRow>) -> Seq<PlayRecordRowView> {
    rows.map_values(|r: PlayRecordRow| r@)
}

/// Whether the rows of a session, in the order of their turns, are the rows
/// of a log: as many states as records, and at every place the two rows of
/// the turn of that place.
pub open spec fn rows_make_log(
    game_id: i64,
    states: Seq<StateRowView>,
    records: Seq<PlayRecordRowView>,
) -> bool {
    &&& states.len() == records.len()
    &&& forall|i: int| 0 <= i < states.len() ==> #[trigger] rows_fit(game_id, states[i], records[i], i)
}

/// What a list of stored sessions shows of one, as a value of mathematics.
pub struct SavedGameInfoView {
    pub id: i64,
    pub game_name: Seq<char>,
    pub variant_name: Seq<char>,
    pub attacker: PlayerView,
    pub defender: PlayerView,
    pub side_to_play: Side,
}

impl View for SavedGameInfo {
    type V = SavedGameInfoView;

    open spec fn view(&self) -> SavedGameInfoView {
        SavedGameInfoView {
            id: self.id,
            game_name: self.game_name@,
            variant_name: self.variant_name@,
            attacker: self.attacker@,
            defender: self.defender@,
            side_to_play: self.side_to_play,
        }
    }
}

/// The entries of a sequence as values of mathematics.
pub open spec fn info_views(infos: Seq<SavedGameInfo>) -> Seq<SavedGameInfoView> {
    infos.map_values(|i: SavedGameInfo| i@)
}

impl DbView {
    /// What the list of stored sessions shows of the first `upto` sessions:
    /// an entry for each whose log stands for a game, in the order of the
    /// store.
    pub open spec fn infos(self, upto: int) -> Seq<SavedGameInfoView>
        decreases upto,
    {
        if upto <= 0 {
            Seq::empty()
        } else {
            let g = self.games[upto - 1];
            match self.logged_game(g.id) {
                Ok(game) => self.infos(upto - 1).push(
                    SavedGameInfoView {
                        id: g.id,
                        game_name: g.name,
                        variant_name: g.variant_name,
                        attacker: g.attacker,
                        defender: g.defender,
                        side_to_play: game.state().side_to_play,
                    },
                ),
                Err(_) => self.infos(upto - 1),
            }
        }
    }
}

/// The store.
#[derive(Debug)]
pub struct DbController {
    variants: Vec<Variant>,
    games: Vec<SavedGame>,
    next_id: i64,
    snapshots: Vec<Snapshot>,
}

impl View for DbController {
    type V = DbView;

    closed spec fn view(&self) -> DbView {
        DbView {
            variants: variant_views(self.variants@),
            games: saved_views(self.games@),
            next_id: self.next_id,
            snapshots: snapshot_views(self.snapshots@),
        }
    }
}

impl DbController {
    /// Whether the store is well formed. Every store that this crate hands
    /// out is, and stays so.
    pub closed spec fn wf(&self) -> bool {
        self@.wf()
    }

    /// What holds of every well-formed store.
    pub proof fn wf_view(&self)
        requires
            self.wf(),
        ensures
            self@.wf(),
    {
    }

    /// A store that holds the variants that every store starts with, and no
    /// session.
    pub fn new() -> (r: DbController)
        ensures
            r.wf(),
            r@ == DbView::empty().with_variants(ootb_variants()),
    {
        let mut r = DbController {
            variants: Vec::new(),
            games: Vec::new(),
            next_id: 1,
            snapshots: Vec::new(),
        };
        assert(r@.variants =~= Seq::empty());
        assert(r@.games =~= Seq::empty());
        assert(r@.snapshots =~= Seq::empty());
        r.populate_tables();
        r
    }

    /// Adds the variants that every store starts with, those whose names are
    /// not taken yet.
    pub fn populate_tables(&mut self)
        requires
            old(self).wf(),
        ensures
            final(self).wf(),
            final(self)@ == old(self)@.with_variants(ootb_variants()),
    {
        let ootb = Variant::ootb();
        let ghost before = self@;
        let ghost all = ootb_variants();
        let mut i: usize = 0;
        assert(ootb@.len() == all.len());
        assert(before.with_variants(all.subrange(0, 0)) == before);
        while i < ootb.len()
            invariant
                i <= ootb.len(),
                self.wf(),
                all == ootb_variants(),
                variant_views(ootb@) == all,
                self@ == before.with_variants(all.subrange(0, i as int)),
            decreases ootb.len() - i,
        {
            proof {
                let longer = all.subrange(0, i + 1);
                assert(longer.drop_last() == all.subrange(0, i as int));
                assert(longer.last() == ootb@[i as int]@);
            }
            self.add_variant(ootb[i].duplicate());
            i += 1;
        }
        assert(all.subrange(0, i as int) == all);
    }

    /// The place of the first variant of the given name.
    fn find_variant(&self, name: &str) -> (r: Option<usize>)
        ensures
            match r {
                Some(i) => i < self.variants.len() && i == variant_index(self@.variants, name@),
                None => variant_index(self@.variants, name@) >= self@.variants.len(),
            },
    {
        let wanted = String::from_str(name);
        let mut i: usize = 0;
        while i < self.variants.len()
            invariant
                i <= self.variants.len(),
                wanted@ == name@,
                forall|j: int| 0 <= j < i ==> self@.variants[j].name != name@,
            decreases self.variants.len() - i,
        {
            if self.variants[i].name == wanted {
                proof {
                    assert(self@.variants[i as int].name == name@);
                    variant_index_is(self@.variants, name@, i as int);
                }
                return Some(i);
            }
            assert(self@.variants[i as int].name != name@);
            i += 1;
        }
        proof {
            variant_index_is(self@.variants, name@, i as int);
        }
        None
    }

    /// The place of the first session of the given number.
    fn find_game(&self, id: i64) -> (r: Option<usize>)
        ensures
            match r {
                Some(i) => i < self.games.len() && i == game_index(self@.games, id)
                    && self@.games[i as int].id == id,
                None => game_index(self@.games, id) >= self@.games.len(),
            },
    {
        let mut i: usize = 0;
        while i < self.games.len()
            invariant
                i <= self.games.len(),
                forall|j: int| 0 <= j < i ==> self@.games[j].id != id,
            decreases self.games.len() - i,
        {
            if self.games[i].row.id == id {
                proof {
                    assert(self@.games[i as int].id == id);
                    game_index_is(self@.games, id, i as int);
                }
                return Some(i);
            }
            assert(self@.games[i as int].id != id);
            i += 1;
        }
        proof {
            game_index_is(self@.games, id, i as int);
        }
        None
    }

    /// Adds a variant, unless the store has one of its name already. Returns
    /// whether it was added.
    pub fn add_variant(&mut self, variant: Variant) -> (r: bool)
        requires
            old(self).wf(),
        ensures
            final(self).wf(),
            final(self)@ == old(self)@.with_variant(variant@),
            r == (old(self)@.variant(variant@.name) is None),
    {
        match self.find_variant(variant.name.as_str()) {
            Some(_) => false,
            None => {
                let ghost before = self@;
                let ghost added = variant@;
                self.variants.push(variant);
                assert(self@.variants =~= before.variants.push(added));
                true
            },
        }
    }

    /// The variant of the given name.
    pub fn load_variant(&self, name: &str) -> (r: Result<Variant, DbError>)
        ensures
            match self@.variant(name@) {
                Some(v) => r matches Ok(found) && found@ == v,
                None => r matches Err(e) && e == DbError::RowNotFound,
            },
    {
        match self.find_variant(name) {
            Some(i) => Ok(self.variants[i].duplicate()),
            None => Err(DbError::RowNotFound),
        }
    }

    /// Adds a session with the given settings and an empty log, and its
    /// variant, unless the store has one of that name already. Returns the
    /// number of the new session.
    pub fn add_game(&mut self, settings: GameSettings) -> (r: Result<i64, DbError>)
        requires
            old(self).wf(),
        ensures
            final(self).wf(),
            match old(self)@.add_game(settings@) {
                Ok(db) => final(self)@ == db && r == Ok::<i64, DbError>(old(self)@.next_id),
                Err(e) => final(self)@ == old(self)@ && r == Err::<i64, DbError>(e),
            },
    {
        if self.next_id == i64::MAX {
            return Err(DbError::Range);
        }
        let ghost before = self@;
        let ghost given = settings@;
        let id = self.next_id;
        let GameSettings { variant, name, attacker, defender } = settings;
        let variant_name = variant.name.clone();
        self.add_variant(variant);
        let saved = SavedGame {
            row: GameRow { id, name, variant_name, turn: 0, attacker, defender },
            turns: Vec::new(),
        };
        assert(saved@.turns =~= Seq::empty());
        assert(saved@ == before.first_entry(given));
        self.games.push(saved);
        self.next_id = id + 1;
        proof {
            assert(self@.games =~= before.games.push(before.first_entry(given)));
            assert forall|i: int, j: int| 0 <= i < j < self@.games.len() implies (
            #[trigger] self@.games[i]).id != (#[trigger] self@.games[j]).id by {
                if j == before.games.len() {
                    assert(before.games[i].id < before.next_id);
                } else {
                    assert(before.games[i].id != before.games[j].id);
                }
            }
            assert forall|i: int| 0 <= i < self@.games.len() implies (
            #[trigger] self@.games[i]).id < self@.next_id by {
                if i < before.games.len() {
                    assert(before.games[i].id < before.next_id);
                }
            }
            assert forall|i: int| 0 <= i < self@.games.len() implies (
            #[trigger] self@.games[i]).wf() by {
                if i < before.games.len() {
                    assert(before.games[i].wf());
                }
            }
        }
        Ok(id)
    }

    /// Puts a session back into the store that was written out before, with
    /// the number it had and the turns of its log. Sessions have to be put
    /// back in the order of their numbers.
    pub fn restore_game(&mut self, id: i64, settings: GameSettings, turns: Vec<Turn>) -> (r: Result<
        (),
        DbError,
    >)
        requires
            old(self).wf(),
        ensures
            final(self).wf(),
            match old(self)@.restore_game(id, settings@, turn_views(turns@)) {
                Ok(db) => final(self)@ == db && r is Ok,
                Err(e) => final(self)@ == old(self)@ && r == Err::<(), DbError>(e),
            },
    {
        if id < self.next_id {
            return Err(DbError::OutOfOrder);
        }
        if id == i64::MAX {
            return Err(DbError::Range);
        }
        let ghost before = self@;
        let ghost given = settings@;
        let GameSettings { variant, name, attacker, defender } = settings;
        let variant_name = variant.name.clone();
        self.add_variant(variant);
        let saved = SavedGame {
            row: GameRow { id, name, variant_name, turn: turns.len(), attacker, defender },
            turns,
        };
        let ghost added = saved@;
        self.games.push(saved);
        self.next_id = id + 1;
        proof {
            assert(self@.games =~= before.games.push(added));
            assert forall|i: int, j: int| 0 <= i < j < self@.games.len() implies (
            #[trigger] self@.games[i]).id != (#[trigger] self@.games[j]).id by {
                if j == before.games.len() {
                    assert(before.games[i].id < before.next_id);
                } else {
                    assert(before.games[i].id != before.games[j].id);
                }
            }
            assert forall|i: int| 0 <= i < self@.games.len() implies (
            #[trigger] self@.games[i]).id < self@.next_id by {
                if i < before.games.len() {
                    assert(before.games[i].id < before.next_id);
                }
            }
            assert forall|i: int| 0 <= i < self@.games.len() implies (
            #[trigger] self@.games[i]).wf() by {
                if i < before.games.len() {
                    assert(before.games[i].wf());
                }
            }
        }
        Ok(())
    }

    /// The settings of a session.
    pub fn load_settings(&self, id: i64) -> (r: Result<GameSettings, DbError>)
        ensures
            match self@.settings(id) {
                Some(s) => r matches Ok(found) && found@ == s,
                None => r matches Err(e) && e == DbError::RowNotFound,
            },
    {
        let i = match self.find_game(id) {
            Some(i) => i,
            None => return Err(DbError::RowNotFound),
        };
        let row = &self.games[i].row;
        assert(self@.games[i as int] == self.games@[i as int]@);
        let variant = match self.load_variant(row.variant_name.as_str()) {
            Ok(v) => v,
            Err(e) => return Err(e),
        };
        Ok(
            GameSettings {
                variant,
                name: row.name.clone(),
                attacker: row.attacker.duplicate(),
                defender: row.defender.duplicate(),
            },
        )
    }
    /// The number of turns in the log of a session.
    pub fn turn_count(&self, id: i64) -> (r: Option<usize>)
        ensures
            match self@.game(id) {
                Some(g) => r == Some(g.turn as usize) && g.turn <= usize::MAX,
                None => r is None,
            },
    {
        match self.find_game(id) {
            Some(i) => {
                assert(self@.games[i as int] == self.games@[i as int]@);
                Some(self.games[i].row.turn)
            },
            None => None,
        }
    }

    /// Appends a turn to the log of a session: the record of a play and the
    /// state it led to, and moves the session's turn pointer on. Either all
    /// of it is written or nothing. Returns the new turn pointer.
    pub fn add_turn(&mut self, game_id: i64, play_record: PlayRecord, state: GameState) -> (r:
        Result<usize, DbError>)
        requires
            old(self).wf(),
        ensures
            final(self).wf(),
            match old(self)@.append_turn(game_id, TurnView { record: play_record@, state: state@ }) {
                Ok(db) => final(self)@ == db && r == Ok::<usize, DbError>(state.turn),
                Err(e) => final(self)@ == old(self)@ && r == Err::<usize, DbError>(e),
            },
    {
        let i = match self.find_game(game_id) {
            Some(i) => i,
            None => return Err(DbError::RowNotFound),
        };
        let ghost before = self@;
        assert(before.games[i as int] == self.games@[i as int]@);
        let pointer = self.games[i].row.turn;
        if pointer == usize::MAX || state.turn != pointer + 1 {
            return Err(DbError::OutOfOrder);
        }
        let turn = Turn { record: play_record, state };
        let ghost added = turn@;
        let mut saved = self.games.remove(i);
        let ghost entry = saved@;
        saved.turns.push(turn);
        saved.row.turn = pointer + 1;
        assert(saved@.turns =~= entry.turns.push(added));
        assert(saved@ == entry.appended(added));
        self.games.insert(i, saved);
        proof {
            assert(before.games[i as int].wf());
            self.replaced(before, i as int, entry.appended(added));
        }
        Ok(pointer + 1)
    }

    /// Removes the last turn from the log of a session, and moves the
    /// session's turn pointer back: the inverse of [`DbController::add_turn`].
    /// Returns the new turn pointer.
    pub fn undo_turn(&mut self, game_id: i64) -> (r: Result<usize, DbError>)
        requires
            old(self).wf(),
        ensures
            final(self).wf(),
            match old(self)@.truncate_last_turn(game_id) {
                Ok(db) => final(self)@ == db && (r matches Ok(turn) && turn + 1 == old(
                    self,
                )@.game(game_id)->0.turn),
                Err(e) => final(self)@ == old(self)@ && r == Err::<usize, DbError>(e),
            },
    {
        let i = match self.find_game(game_id) {
            Some(i) => i,
            None => return Err(DbError::RowNotFound),
        };
        let ghost before = self@;
        assert(before.games[i as int] == self.games@[i as int]@);
        assert(before.games[i as int].wf());
        if self.games[i].turns.len() == 0 {
            return Err(DbError::OutOfOrder);
        }
        let mut saved = self.games.remove(i);
        let ghost entry = saved@;
        saved.turns.pop();
        saved.row.turn = saved.row.turn - 1;
        assert(saved@.turns =~= entry.turns.drop_last());
        assert(saved@ == entry.truncated());
        let turn = saved.row.turn;
        self.games.insert(i, saved);
        proof {
            self.replaced(before, i as int, entry.truncated());
        }
        Ok(turn)
    }

    /// What holds after the session at a place was taken out and put back
    /// changed, with its number kept and its pointer in step with its log.
    proof fn replaced(&self, before: DbView, i: int, entry: SavedGameView)
        requires
            before.wf(),
            0 <= i < before.games.len(),
            entry.id == before.games[i].id,
            entry.wf(),
            self.next_id == before.next_id,
            variant_views(self.variants@) == before.variants,
            snapshot_views(self.snapshots@) == before.snapshots,
            saved_views(self.games@) =~= before.games.remove(i).insert(i, entry),
        ensures
            self@ == before.with_game(i, entry),
            self.wf(),
    {
        assert(self@.games =~= before.games.update(i, entry));
        assert forall|a: int, b: int| 0 <= a < b < self@.games.len() implies (
        #[trigger] self@.games[a]).id != (#[trigger] self@.games[b]).id by {
            assert(before.games[a].id != before.games[b].id);
        }
        assert forall|a: int| 0 <= a < self@.games.len() implies (#[trigger] self@.games[a]).id
            < self@.next_id by {
            assert(before.games[a].id < before.next_id);
        }
        assert forall|a: int| 0 <= a < self@.games.len() implies (#[trigger] self@.games[a]).wf() by {
            if a != i {
                assert(before.games[a].wf());
            }
        }
    }

    /// Reads a session back: its settings, and the game that its log stands
    /// for. The state of the game is the state of the last entry of the log.
    pub fn load_game(&self, id: i64) -> (r: Result<(GameSettings, Game), DbError>)
        ensures
            match self@.logged_game(id) {
                Ok(game) => r matches Ok(found) && found.1@ == game && found.1.wf() && Some(
                    found.0@,
                ) == self@.settings(id),
                Err(e) => r matches Err(x) && x == e,
            },
    {
        let settings = match self.load_settings(id) {
            Ok(s) => s,
            Err(e) => return Err(e),
        };
        let i = match self.find_game(id) {
            Some(i) => i,
            None => return Err(DbError::RowNotFound),
        };
        assert(self@.games[i as int] == self.games@[i as int]@);
        let stored = &self.games[i].turns;
        let mut turns: Vec<Turn> = Vec::new();
        let mut k: usize = 0;
        while k < stored.len()
            invariant
                k <= stored.len(),
                turn_views(turns@) == turn_views(stored@).subrange(0, k as int),
            decreases stored.len() - k,
        {
            let ghost so_far = turn_views(turns@);
            turns.push(stored[k].duplicate());
            assert(turn_views(turns@) =~= so_far.push(stored@[k as int]@));
            assert(turn_views(turns@) =~= turn_views(stored@).subrange(0, k + 1));
            k += 1;
        }
        assert(turn_views(turns@) == turn_views(stored@));
        match Game::resume(
            settings.variant.rules.as_str(),
            settings.variant.starting_board.as_str(),
            turns,
        ) {
            Some(game) => Ok((settings, game)),
            None => Err(DbError::Parse),
        }
    }

    /// Removes a session and its log.
    pub fn delete_game_from_db(&mut self, id: i64) -> (r: Result<(), DbError>)
        requires
            old(self).wf(),
        ensures
            final(self).wf(),
            match old(self)@.delete_game(id) {
                Ok(db) => final(self)@ == db && r is Ok,
                Err(e) => final(self)@ == old(self)@ && r == Err::<(), DbError>(e),
            },
    {
        let i = match self.find_game(id) {
            Some(i) => i,
            None => return Err(DbError::RowNotFound),
        };
        let ghost before = self@;
        self.games.remove(i);
        proof {
            assert(self@.games =~= before.games.remove(i as int));
            assert forall|a: int, b: int| 0 <= a < b < self@.games.len() implies (
            #[trigger] self@.games[a]).id != (#[trigger] self@.games[b]).id by {
                let a0 = if a < i { a } else { a + 1 };
                let b0 = if b < i { b } else { b + 1 };
                assert(before.games[a0].id != before.games[b0].id);
            }
            assert forall|a: int| 0 <= a < self@.games.len() implies (
            #[trigger] self@.games[a]).id < self@.next_id by {
                let a0 = if a < i { a } else { a + 1 };
                assert(before.games[a0].id < before.next_id);
            }
            assert forall|a: int| 0 <= a < self@.games.len() implies (
            #[trigger] self@.games[a]).wf() by {
                let a0 = if a < i { a } else { a + 1 };
                assert(before.games[a0].wf());
            }
        }
        Ok(())
    }

    /// The list of the stored sessions: an entry for each session whose log
    /// stands for a game, in the order of the store.
    pub fn load_saved_game_info(&self) -> (r: Vec<SavedGameInfo>)
        ensures
            info_views(r@) == self@.infos(self@.games.len() as int),
    {
        let mut out: Vec<SavedGameInfo> = Vec::new();
        let mut k: usize = 0;
        assert(info_views(out@) =~= self@.infos(0));
        while k < self.games.len()
            invariant
                k <= self.games.len(),
                info_views(out@) == self@.infos(k as int),
            decreases self.games.len() - k,
        {
            let row = &self.games[k].row;
            assert(self@.games[k as int] == self.games@[k as int]@);
            match self.load_game(row.id) {
                Ok(found) => {
                    let ghost so_far = info_views(out@);
                    let info = SavedGameInfo {
                        id: row.id,
                        game_name: row.name.clone(),
                        variant_name: row.variant_name.clone(),
                        attacker: row.attacker.duplicate(),
                        defender: row.defender.duplicate(),
                        side_to_play: found.1.state().side_to_play,
                    };
                    let ghost added = info@;
                    out.push(info);
                    assert(info_views(out@) =~= so_far.push(added));
                },
                Err(_) => {},
            }
            k += 1;
        }
        out
    }

    /// The place of the first stored whole game of the given number.
    fn find_snapshot(&self, id: usize) -> (r: Option<usize>)
        ensures
            match r {
                Some(i) => i < self.snapshots.len() && i == snapshot_index(self@.snapshots, id),
                None => snapshot_index(self@.snapshots, id) >= self@.snapshots.len(),
            },
    {
        let mut i: usize = 0;
        while i < self.snapshots.len()
            invariant
                i <= self.snapshots.len(),
                forall|j: int| 0 <= j < i ==> self@.snapshots[j].id != id,
            decreases self.snapshots.len() - i,
        {
            if self.snapshots[i].id == id {
                proof {
                    assert(self@.snapshots[i as int].id == id);
                    snapshot_index_is(self@.snapshots, id, i as int);
                }
                return Some(i);
            }
            assert(self@.snapshots[i as int].id != id);
            i += 1;
        }
        proof {
            snapshot_index_is(self@.snapshots, id, i as int);
        }
        None
    }

    /// The largest number under which a whole game is stored; 0 where none
    /// is.
    pub fn largest_snapshot_id(&self) -> (r: usize)
        ensures
            r == largest_id(self@.snapshots),
    {
        let mut largest: usize = 0;
        let mut i: usize = 0;
        assert(self@.snapshots.subrange(0, 0) =~= Seq::empty());
        while i < self.snapshots.len()
            invariant
                i <= self.snapshots.len(),
                largest == largest_id(self@.snapshots.subrange(0, i as int)),
            decreases self.snapshots.len() - i,
        {
            proof {
                let longer = self@.snapshots.subrange(0, i + 1);
                assert(longer.drop_last() == self@.snapshots.subrange(0, i as int));
                assert(longer.last() == self@.snapshots[i as int]);
                assert(self@.snapshots[i as int].id == self.snapshots@[i as int].id);
            }
            if self.snapshots[i].id > largest {
                largest = self.snapshots[i].id;
            }
            i += 1;
        }
        assert(self@.snapshots.subrange(0, i as int) == self@.snapshots);
        largest
    }

    /// Stores a whole game with its two players under the given number, in
    /// place of what was stored under it.
    pub fn store_snapshot(&mut self, id: usize, game: &Game, attacker: &Player, defender: &Player)
        requires
            old(self).wf(),
            game.wf(),
        ensures
            final(self).wf(),
            final(self)@ == old(self)@.with_snapshot(
                SnapshotView { id, game: game@, attacker: attacker@, defender: defender@ },
            ),
    {
        let snapshot = Snapshot {
            id,
            game: game.duplicate(),
            attacker: attacker.duplicate(),
            defender: defender.duplicate(),
        };
        let ghost before = self@;
        let ghost added = snapshot@;
        match self.find_snapshot(id) {
            Some(i) => {
                self.snapshots.set(i, snapshot);
                assert(self@.snapshots =~= before.snapshots.update(i as int, added));
                assert forall|k: int| 0 <= k < self@.snapshots.len() implies (
                #[trigger] self@.snapshots[k]).game.wf() by {
                    if k != i {
                        assert(before.snapshots[k].game.wf());
                    }
                }
            },
            None => {
                self.snapshots.push(snapshot);
                assert(self@.snapshots =~= before.snapshots.push(added));
                assert forall|k: int| 0 <= k < self@.snapshots.len() implies (
                #[trigger] self@.snapshots[k]).game.wf() by {
                    if k < before.snapshots.len() {
                        assert(before.snapshots[k].game.wf());
                    }
                }
            },
        }
        assert(self@.games == before.games);
    }

    /// The whole game that is stored under a number, with its two players.
    pub fn load_snapshot(&self, id: usize) -> (r: Option<(Game, Player, Player)>)
        requires
            self.wf(),
        ensures
            match self@.snapshot(id) {
                Some(s) => r matches Some(found) && found.0@ == s.game && found.0.wf()
                    && found.1@ == s.attacker && found.2@ == s.defender,
                None => r is None,
            },
    {
        match self.find_snapshot(id) {
            Some(i) => {
                let s = &self.snapshots[i];
                assert(self@.snapshots[i as int] == s@);
                assert(self@.snapshots[i as int].game.wf());
                Some((s.game.duplicate(), s.attacker.duplicate(), s.defender.duplicate()))
            },
            None => None,
        }
    }

    /// The two rows that are written to a database for a turn of a session,
    /// both under the index of the turn, which is the turn of its state.
    pub fn rows_of_turn(game_id: i64, play_record: &PlayRecord, state: &GameState) -> (r: Result<
        (StateRow, PlayRecordRow),
        DbError,
    >)
        ensures
            match state_row(game_id, state@) {
                Some(row) => r matches Ok(rows) && rows.0@ == row && rows.1@ == play_record_row(
                    game_id,
                    row.turn,
                    play_record@,
                ),
                None => r matches Err(e) && e == DbError::Range,
            },
    {
        let state_row = match DbController::add_state(game_id, state) {
            Ok(row) => row,
            Err(e) => return Err(e),
        };
        let record_row = DbController::add_play_record(game_id, state_row.turn, play_record);
        Ok((state_row, record_row))
    }

    /// Reads the rows of a session, in the order of their turns, as the turns
    /// of its log.
    pub fn turns_of_rows(game_id: i64, states: &Vec<StateRow>, records: &Vec<PlayRecordRow>) -> (r:
        Result<Vec<Turn>, DbError>)
        ensures
            rows_make_log(game_id, state_row_views(states@), record_row_views(records@)) ==> (
            r matches Ok(turns) && turns.len() == states.len() && forall|i: int|
                0 <= i < turns.len() ==> (#[trigger] turns[i])@ == rows_turn(
                    states[i]@,
                    records[i]@,
                )),
            !rows_make_log(game_id, state_row_views(states@), record_row_views(records@)) ==> (
            r matches Err(e) && e == DbError::Parse),
    {
        if states.len() != records.len() {
            return Err(DbError::Parse);
        }
        let mut turns: Vec<Turn> = Vec::new();
        let mut i: usize = 0;
        while i < states.len()
            invariant
                i <= states.len(),
                states.len() == records.len(),
                turns.len() == i,
                forall|k: int|
                    0 <= k < i ==> #[trigger] rows_fit(
                        game_id,
                        state_row_views(states@)[k],
                        record_row_views(records@)[k],
                        k,
                    ),
                forall|k: int|
                    0 <= k < i ==> (#[trigger] turns[k])@ == rows_turn(states[k]@, records[k]@),
            decreases states.len() - i,
        {
            let state_row = &states[i];
            let record_row = &records[i];
            assert(state_row_views(states@)[i as int] == state_row@);
            assert(record_row_views(records@)[i as int] == record_row@);
            if state_row.game_id != game_id || record_row.game_id != game_id || i as u64
                >= i64::MAX as u64 {
                assert(!rows_fit(game_id, state_row@, record_row@, i as int));
                return Err(DbError::Parse);
            }
            if state_row.turn != i as i64 + 1 || record_row.turn != i as i64 + 1 {
                assert(!rows_fit(game_id, state_row@, record_row@, i as int));
                return Err(DbError::Parse);
            }
            let state = match state_row.state() {
                Some(s) => s,
                None => {
                    assert(!rows_fit(game_id, state_row@, record_row@, i as int));
                    return Err(DbError::Parse);
                },
            };
            turns.push(Turn { record: record_row.record(), state });
            i += 1;
        }
        Ok(turns)
    }

    /// The row that is written to a database for a state of a session.
    pub fn add_state(game_id: i64, state: &GameState) -> (r: Result<StateRow, DbError>)
        ensures
            match state_row(game_id, state@) {
                Some(row) => r matches Ok(found) && found@ == row,
                None => r matches Err(e) && e == DbError::Range,
            },
    {
        if state.turn as u64 > i64::MAX as u64 || state.plays_since_capture as u64
            > i64::MAX as u64 {
            return Err(DbError::Range);
        }
        Ok(
            StateRow {
                game_id,
                turn: state.turn as i64,
                board: state.board.clone(),
                side_to_play: state.side_to_play,
                repetitions: state.repetitions,
                plays_since_capture: state.plays_since_capture as i64,
                status: state.status,
            },
        )
    }

    /// The row that is written to a database for the record of a play of a
    /// session, under the index of the turn that the play made.
    pub fn add_play_record(game_id: i64, turn: i64, play_record: &PlayRecord) -> (r: PlayRecordRow)
        ensures
            r@ == play_record_row(game_id, turn, play_record@),
    {
        let copy = play_record.duplicate();
        PlayRecordRow {
            game_id,
            turn,
            side: copy.side,
            play: copy.play,
            captures: copy.effects.captures,
            game_outcome: copy.effects.game_outcome,
        }
    }
}

/// Stores a whole game with its two players under a new number, the one after
/// the largest that is in use, and returns that number.
pub fn add_to_db(db: &mut DbController, game: &Game, attacker: &Player, defender: &Player) -> (r:
    usize)
    requires
        old(db).wf(),
        game.wf(),
        largest_id(old(db)@.snapshots) < usize::MAX,
    ensures
        final(db).wf(),
        r == largest_id(old(db)@.snapshots) + 1,
        final(db)@ == old(db)@.with_snapshot(
            SnapshotView { id: r, game: game@, attacker: attacker@, defender: defender@ },
        ),
{
    let id = db.largest_snapshot_id() + 1;
    db.store_snapshot(id, game, attacker, defender);
    id
}

/// Stores a whole game with its two players under the given number, in place
/// of what was stored under it.
pub fn save_to_db(db: &mut DbController, id: usize, game: &Game, attacker: &Player, defender: &Player)
    requires
        old(db).wf(),
        game.wf(),
    ensures
        final(db).wf(),
        final(db)@ == old(db)@.with_snapshot(
            SnapshotView { id, game: game@, attacker: attacker@, defender: defender@ },
        ),
{
    db.store_snapshot(id, game, attacker, defender);
}

impl StateRow {
    /// The state that the row holds.
    pub fn state(&self) -> (r: Option<GameState>)
        ensures
            match row_state(self@) {
                Some(s) => r matches Some(found) && found@ == s,
                None => r is None,
            },
    {
        if self.turn < 0 || self.plays_since_capture < 0 {
            return None;
        }
        if self.turn as u64 > usize::MAX as u64 || self.plays_since_capture as u64
            > usize::MAX as u64 {
            return None;
        }
        Some(
            GameState {
                board: self.board.clone(),
                side_to_play: self.side_to_play,
                repetitions: self.repetitions,
                plays_since_capture: self.plays_since_capture as usize,
                status: self.status,
                turn: self.turn as usize,
            },
        )
    }
}

impl PlayRecordRow {
    /// The record that the row holds.
    pub fn record(&self) -> (r: PlayRecord)
        ensures
            r@ == row_record(self@),
    {
        let mut captures: Vec<PlacedPiece> = Vec::new();
        let mut i: usize = 0;
        while i < self.captures.len()
            invariant
                i <= self.captures.len(),
                captures@ == self.captures@.subrange(0, i as int),
            decreases self.captures.len() - i,
        {
            captures.push(self.captures[i]);
            i += 1;
        }
        assert(captures@ == self.captures@);
        PlayRecord {
            side: self.side,
            play: self.play,
            effects: PlayEffects { captures, game_outcome: self.game_outcome },
        }
    }
}

} // verus!