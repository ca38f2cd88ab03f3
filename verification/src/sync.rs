//! The bookkeeping of game imports: which Chess.com games qualify, the
//! progress record of an import, the request defaults, and when the
//! background refill runs.

use vstd::prelude::*;
use vstd::string::StringExecFns;
use crate::models::{ChessComGame, DetectedPuzzle, SyncRequest, SyncStatus};
use crate::json::{spec_stored_list, store_list};
use crate::text::{list_contains, string_views, to_lowercase, unicode_lowercase};

verus! {

/// The refill starts when fewer puzzles than this are due.
pub const LOW_WATERMARK: i64 = 8;
/// The refill aims for this many puzzles.
pub const HIGH_WATERMARK: i64 = 16;
/// Minutes between two runs of the background refill.
pub const DAEMON_INTERVAL_MINUTES: u64 = 15;
/// Milliseconds the background refill pauses before each evaluation.
pub const THROTTLE_SLEEP_MS: u64 = 100;
/// Search depth of the background refill.
pub const BACKGROUND_EVAL_DEPTH: u32 = 16;

/// The most recent `months_back` monthly archives, newest first (archives
/// are listed oldest first).
pub open spec fn spec_recent_archives(archives: Seq<Seq<char>>, months_back: int) -> Seq<Seq<char>> {
    let rev = archives.reverse();
    rev.subrange(0, if months_back < rev.len() { months_back } else { rev.len() as int })
}

/// A game worth importing: standard chess, with a PGN, and of one of the
/// wanted time classes (compared in lower case) unless none are named.
pub open spec fn spec_game_qualifies(game: ChessComGame, time_classes: Seq<Seq<char>>) -> bool {
    &&& game.rules@ == "chess"@
    &&& game.pgn is Some
    &&& (time_classes.len() == 0 || time_classes.contains(unicode_lowercase(game.time_class@)))
}

/// Taking games in the given order, the qualifying ones are added until the
/// collection reaches `max_games` (checked after each addition).
pub open spec fn spec_fill(collected: Seq<ChessComGame>, games: Seq<ChessComGame>, time_classes: Seq<Seq<char>>, max_games: int) -> Seq<ChessComGame>
    decreases games.len(),
{
    if games.len() == 0 {
        collected
    } else if !spec_game_qualifies(games[0], time_classes) {
        spec_fill(collected, games.drop_first(), time_classes, max_games)
    } else {
        let next = collected.push(games[0]);
        if next.len() >= max_games {
            next
        } else {
            spec_fill(next, games.drop_first(), time_classes, max_games)
        }
    }
}

/// The labels of an import's states.
pub open spec fn is_busy_state(state: Seq<char>) -> bool {
    state == "fetching_games"@ || state == "analyzing"@
}

/// The latest archives, newest first.
pub fn recent_archives(archives: Vec<String>, months_back: usize) -> (r: Vec<String>)
    ensures
        string_views(r@) == spec_recent_archives(string_views(archives@), months_back as int),
{
    let n = archives.len();
    let mut out: Vec<String> = Vec::new();
    let mut i: usize = 0;
    while i < months_back && i < n
        invariant
            n == archives@.len(),
            i <= n,
            i <= months_back,
            string_views(out@) == string_views(archives@).reverse().subrange(0, i as int),
        decreases n - i,
    {
        let s = archives[n - 1 - i].clone();
        let ghost old_out = out@;
        out.push(s);
        assert(string_views(out@) =~= string_views(old_out).push(s@));
        assert(string_views(archives@).reverse().subrange(0, i + 1) =~= string_views(archives@).reverse().subrange(0, i as int).push(string_views(archives@)[n - 1 - i]));
        i = i + 1;
    }
    assert(string_views(archives@).len() == n);
    out
}

/// Whether a game is worth importing.
pub fn game_qualifies(game: &ChessComGame, time_classes: &Vec<String>) -> (r: bool)
    ensures
        r == spec_game_qualifies(*game, string_views(time_classes@)),
{
    if game.rules != "chess".to_string() || game.pgn.is_none() {
        return false;
    }
    if time_classes.len() == 0 {
        return true;
    }
    let tc = to_lowercase(game.time_class.as_str());
    list_contains(time_classes.as_slice(), tc.as_str())
}

/// Adds the qualifying games of one archive, most recent first, until
/// `max_games` are collected; tells whether that number is reached.
pub fn collect_games(collected: &mut Vec<ChessComGame>, archive_games: Vec<ChessComGame>, time_classes: &Vec<String>, max_games: usize) -> (full: bool)
    ensures
        final(collected)@ == spec_fill(old(collected)@, archive_games@.reverse(), string_views(time_classes@), max_games as int),
        full == (final(collected)@.len() >= max_games),
{
    let ghost games = archive_games@.reverse();
    let mut rest = archive_games;
    while rest.len() > 0
        invariant
            games == archive_games@.reverse(),
            spec_fill(collected@, rest@.reverse(), string_views(time_classes@), max_games as int)
                == spec_fill(old(collected)@, games, string_views(time_classes@), max_games as int),
        decreases rest@.len(),
    {
        let ghost before = rest@;
        let ghost kept = collected@;
        let game = rest.pop().unwrap();
        assert(before.reverse().drop_first() =~= rest@.reverse());
        assert(before.reverse()[0] == game);
        if game_qualifies(&game, time_classes) {
            collected.push(game);
            if collected.len() >= max_games {
                assert(spec_fill(kept, before.reverse(), string_views(time_classes@), max_games as int) == collected@);
                return true;
            }
        }
    }
    assert(rest@.reverse() =~= Seq::<ChessComGame>::empty());
    collected.len() >= max_games
}

/// Whether an import in this state is still running.
pub fn is_busy(status: &SyncStatus) -> (r: bool)
    ensures
        r == is_busy_state(status.state@),
{
    status.state == "fetching_games".to_string() || status.state == "analyzing".to_string()
}

/// The record of an import that has just started fetching games.
pub fn status_fetching(username: String) -> (r: SyncStatus)
    ensures
        r.username == username,
        r.state@ == "fetching_games"@,
        r.total_games == 0 && r.processed_games == 0 && r.puzzles_found == 0,
        r.current_game is None && r.error is None,
{
    SyncStatus {
        username,
        state: "fetching_games".to_string(),
        total_games: 0,
        processed_games: 0,
        puzzles_found: 0,
        current_game: None,
        error: None,
    }
}

/// The record reported for a user with no import on record.
pub fn status_idle(username: String) -> (r: SyncStatus)
    ensures
        r.username == username,
        r.state@ == "idle"@,
        r.total_games == 0 && r.processed_games == 0 && r.puzzles_found == 0,
        r.current_game is None && r.error is None,
{
    SyncStatus {
        username,
        state: "idle".to_string(),
        total_games: 0,
        processed_games: 0,
        puzzles_found: 0,
        current_game: None,
        error: None,
    }
}

/// The import failed with the given message.
pub fn mark_failed(status: &mut SyncStatus, message: String)
    ensures
        final(status).state@ == "failed"@,
        final(status).error == Some(message),
        final(status).username == old(status).username,
        final(status).total_games == old(status).total_games,
        final(status).processed_games == old(status).processed_games,
        final(status).puzzles_found == old(status).puzzles_found,
        final(status).current_game == old(status).current_game,
{
    status.state = "failed".to_string();
    status.error = Some(message);
}

/// A background refill gave up fetching games: back to idle, with the
/// message.
pub fn mark_idle_with_error(status: &mut SyncStatus, message: Option<String>)
    ensures
        final(status).state@ == "idle"@,
        message is Some ==> final(status).error == message,
        message is None ==> final(status).error == old(status).error,
        final(status).username == old(status).username,
        final(status).total_games == old(status).total_games,
        final(status).processed_games == old(status).processed_games,
        final(status).puzzles_found == old(status).puzzles_found,
        final(status).current_game == old(status).current_game,
{
    status.state = "idle".to_string();
    if message.is_some() {
        status.error = message;
    }
}

/// The games are fetched; the analysis of `total_games` begins.
pub fn mark_analyzing(status: &mut SyncStatus, total_games: usize)
    ensures
        final(status).state@ == "analyzing"@,
        final(status).total_games == total_games,
        final(status).username == old(status).username,
        final(status).processed_games == old(status).processed_games,
        final(status).puzzles_found == old(status).puzzles_found,
        final(status).current_game == old(status).current_game,
        final(status).error == old(status).error,
{
    status.state = "analyzing".to_string();
    status.total_games = total_games;
}

/// The label of the game being analysed: "vs OPPONENT (TIME_CLASS)".
pub open spec fn spec_game_label(opponent: Seq<char>, time_class: Seq<char>) -> Seq<char> {
    "vs "@ + opponent + " ("@ + time_class + ")"@
}

pub fn game_label(opponent: &str, time_class: &str) -> (r: String)
    ensures
        r@ == spec_game_label(opponent@, time_class@),
{
    let mut s = "vs ".to_string();
    s.append(opponent);
    s.append(" (");
    s.append(time_class);
    s.append(")");
    s
}

/// Progress: game number `index + 1` is being analysed, `puzzles_found` so
/// far.
pub fn mark_progress(status: &mut SyncStatus, index: usize, label: String, puzzles_found: usize)
    requires
        index < usize::MAX,
    ensures
        final(status).processed_games == index + 1,
        final(status).current_game == Some(label),
        final(status).puzzles_found == puzzles_found,
        final(status).state == old(status).state,
        final(status).username == old(status).username,
        final(status).total_games == old(status).total_games,
        final(status).error == old(status).error,
{
    status.processed_games = index + 1;
    status.current_game = Some(label);
    status.puzzles_found = puzzles_found;
}

/// The import is done: all games processed, the count of puzzles created.
pub fn mark_completed(status: &mut SyncStatus, total_games: usize, puzzles_found: usize)
    ensures
        final(status).state@ == "completed"@,
        final(status).processed_games == total_games,
        final(status).puzzles_found == puzzles_found,
        final(status).current_game is None,
        final(status).username == old(status).username,
        final(status).total_games == old(status).total_games,
        final(status).error == old(status).error,
{
    status.state = "completed".to_string();
    status.processed_games = total_games;
    status.puzzles_found = puzzles_found;
    status.current_game = None;
}

/// Which side the user played: white when the white player's name matches
/// (in lower case), black otherwise.
pub fn user_side(white_player: &str, lower_username: &str) -> (is_white: bool)
    ensures
        is_white == (unicode_lowercase(white_player@) == lower_username@),
{
    to_lowercase(white_player) == lower_username.to_string()
}

/// Whether the background refill has work for a user: it skips users with
/// at least `LOW_WATERMARK` due puzzles and `HIGH_WATERMARK` puzzles in all.
pub fn needs_refill(due_count: i64, total_count: i64) -> (r: bool)
    ensures
        r == !(due_count >= LOW_WATERMARK && total_count >= HIGH_WATERMARK),
{
    !(due_count >= LOW_WATERMARK && total_count >= HIGH_WATERMARK)
}

/// Whether the refill has reached its goal of due puzzles.
pub fn refill_reached(current_due: i64) -> (r: bool)
    ensures
        r == (current_due >= HIGH_WATERMARK),
{
    current_due >= HIGH_WATERMARK
}

/// The settings of an import with the defaults filled in: rapid and blitz
/// games, at most 30 games, two months back, search depth 14.
pub fn sync_settings(req: SyncRequest) -> (r: (Vec<String>, usize, usize, u32))
    ensures
        match req.time_classes {
            Some(t) => r.0 == t,
            None => string_views(r.0@) == seq!["rapid"@, "blitz"@],
        },
        r.1 == match req.max_games { Some(m) => m, None => 30 },
        r.2 == match req.months_back { Some(m) => m, None => 2 },
        r.3 == match req.engine_depth { Some(d) => d, None => 14 },
{
    let time_classes = match req.time_classes {
        Some(t) => t,
        None => {
            let mut v: Vec<String> = Vec::new();
            v.push("rapid".to_string());
            v.push("blitz".to_string());
            assert(string_views(v@) =~= seq!["rapid"@, "blitz"@]);
            v
        },
    };
    let max_games = match req.max_games { Some(m) => m, None => 30 };
    let months_back = match req.months_back { Some(m) => m, None => 2 };
    let engine_depth = match req.engine_depth { Some(d) => d, None => 14 };
    (time_classes, max_games, months_back, engine_depth)
}

/// Whether an import may start, given the record of the last one: not
/// while that one is still fetching or analysing.
pub fn import_may_start(current: &Option<SyncStatus>) -> (r: bool)
    ensures
        r == match current {
            Some(st) => !is_busy_state(st.state@),
            None => true,
        },
{
    match current {
        Some(st) => !is_busy(st),
        None => true,
    }
}

/// What an import does with one fetched game.
pub struct GamePlan {
    pub pgn: String,
    pub user_is_white: bool,
    /// "white" or "black".
    pub user_color: String,
    /// The user's result in the game.
    pub result: String,
    /// The progress label: "vs OPPONENT (TIME_CLASS)".
    pub label: String,
}

/// Plans a fetched game for a user (given in lower case): the user is white
/// when the white player's name matches, and the game is skipped (`None`)
/// when it has no PGN.
pub fn plan_game(game: &ChessComGame, lower_username: &str) -> (r: Option<GamePlan>)
    ensures
        r is None <==> game.pgn is None,
        r matches Some(plan) ==> {
            let white = unicode_lowercase(game.white.username@) == lower_username@;
            &&& plan.pgn@ == game.pgn.unwrap()@
            &&& plan.user_is_white == white
            &&& plan.user_color@ == (if white { "white"@ } else { "black"@ })
            &&& plan.result@ == (if white { game.white.result@ } else { game.black.result@ })
            &&& plan.label@ == spec_game_label(
                if white { game.black.username@ } else { game.white.username@ },
                game.time_class@,
            )
        },
{
    match &game.pgn {
        None => None,
        Some(pgn) => {
            let white = user_side(game.white.username.as_str(), lower_username);
            let opponent = if white { game.black.username.as_str() } else { game.white.username.as_str() };
            let label = game_label(opponent, game.time_class.as_str());
            let result = if white { game.white.result.clone() } else { game.black.result.clone() };
            let user_color = if white { "white".to_string() } else { "black".to_string() };
            Some(GamePlan { pgn: pgn.clone(), user_is_white: white, user_color, result, label })
        },
    }
}

/// The stored forms of a detected puzzle's lists.
pub struct StoredLists {
    pub continuation_json: String,
    pub blunder_continuation_json: String,
    pub tags_json: String,
}

/// Encodes a detected puzzle's move lists and tags for storage.
pub fn stored_lists(p: &DetectedPuzzle) -> (r: StoredLists)
    ensures
        r.continuation_json@ == spec_stored_list(string_views(p.continuation_uci@)),
        r.blunder_continuation_json@ == spec_stored_list(string_views(p.blunder_continuation_uci@)),
        r.tags_json@ == spec_stored_list(string_views(p.tactical_tags@)),
{
    StoredLists {
        continuation_json: store_list(&p.continuation_uci),
        blunder_continuation_json: store_list(&p.blunder_continuation_uci),
        tags_json: store_list(&p.tactical_tags),
    }
}

/// Whether a record says that an import is running.
pub open spec fn record_busy(current: Option<SyncStatus>) -> bool {
    current matches Some(st) && is_busy_state(st.state@)
}

/// A fresh record of an import that has just started fetching games.
pub open spec fn fresh_fetching(st: SyncStatus, username: String) -> bool {
    &&& st.username == username
    &&& st.state@ == "fetching_games"@
    &&& st.total_games == 0 && st.processed_games == 0 && st.puzzles_found == 0
    &&& st.current_game is None && st.error is None
}

/// What a request to start an import makes of the user's record: the record
/// to keep (and answer with) and whether a run starts.  A running import is
/// kept as it is and nothing starts; otherwise a fresh record replaces the
/// old one and a run starts.
pub open spec fn start_outcome(current: Option<SyncStatus>, username: String, r: (SyncStatus, bool)) -> bool {
    if record_busy(current) {
        r.0 == current.unwrap() && !r.1
    } else {
        r.1 && fresh_fetching(r.0, username)
    }
}

/// Decides a request to start an import for a user, given the user's
/// current record.
pub fn start_import(current: Option<SyncStatus>, username: String) -> (r: (SyncStatus, bool))
    ensures
        start_outcome(current, username, r),
{
    match current {
        Some(st) => {
            if is_busy(&st) {
                (st, false)
            } else {
                (status_fetching(username), true)
            }
        },
        None => (status_fetching(username), true),
    }
}

/// A request to start an import while one runs for the same user changes
/// nothing: the record stays as it was, it is what the request is answered
/// with, and no run starts.
pub proof fn law_running_import_is_kept(current: SyncStatus, username: String, r: (SyncStatus, bool))
    requires
        is_busy_state(current.state@),
        start_outcome(Some(current), username, r),
    ensures
        r.0 == current,
        !r.1,
{
}

/// What happens during an import run.
pub enum RunEvent {
    /// The user could not be stored.
    UserFailed(String),
    /// The games could not be fetched.
    FetchFailed(String),
    /// This many games were fetched.
    Fetched(usize),
    /// The game with this index is being analysed, under this label.
    GameStarted(usize, String),
    /// A puzzle was stored.
    PuzzleStored,
    /// The current game is done with.
    GameDone,
    /// Every game was handled.
    Finished,
}

/// Whether the run goes on.
#[derive(PartialEq, Eq, Structural, Clone, Copy, Debug)]
pub enum RunAction {
    Go,
    Stop,
}

/// An import run: a manual import, or a background refill (which aims at
/// `HIGH_WATERMARK` due puzzles), with its progress record and counts.
pub struct ImportRun {
    pub refill: bool,
    pub status: SyncStatus,
    pub total_games: usize,
    pub created: usize,
    pub current_due: i64,
    pub over: bool,
}

/// One step of a run: what the event does to the run, and the action.
pub open spec fn step_rel(before: ImportRun, event: RunEvent, after: ImportRun, action: RunAction) -> bool {
    &&& after.refill == before.refill
    &&& after.status.username == before.status.username
    &&& match event {
        RunEvent::UserFailed(m) => action == RunAction::Stop && after.over
            && after.status.state@ == "failed"@ && after.status.error == Some(m)
            && after.created == before.created,
        RunEvent::FetchFailed(m) => action == RunAction::Stop && after.over
            && after.status.error == Some(m) && after.created == before.created
            && after.status.state@ == (if before.refill { "idle"@ } else { "failed"@ }),
        RunEvent::Fetched(n) => if before.refill && n == 0 {
            action == RunAction::Stop && after.over && after.status.state@ == "idle"@
                && after.status.error == before.status.error && after.created == before.created
        } else {
            action == RunAction::Go && !after.over && after.status.state@ == "analyzing"@
                && after.total_games == n && after.status.total_games == n
                && after.created == before.created
        },
        RunEvent::GameStarted(i, label) => action == RunAction::Go && !after.over
            && after.status.processed_games == i + 1 && after.status.current_game == Some(label)
            && after.status.puzzles_found == before.created
            && after.status.state == before.status.state
            && after.created == before.created && after.total_games == before.total_games,
        RunEvent::PuzzleStored => action == RunAction::Go && !after.over
            && after.created == before.created + 1
            && after.current_due == before.current_due + 1
            && after.total_games == before.total_games
            && after.status.state == before.status.state
            && after.status.processed_games == before.status.processed_games
            && (before.refill ==> after.status.puzzles_found == after.created)
            && (!before.refill ==> after.status.puzzles_found == before.status.puzzles_found),
        RunEvent::GameDone => after == before
            && action == (if before.refill && before.current_due >= HIGH_WATERMARK {
            RunAction::Stop
        } else {
            RunAction::Go
        }),
        RunEvent::Finished => action == RunAction::Stop && after.over
            && after.status.state@ == "completed"@
            && after.status.processed_games == before.total_games
            && after.status.puzzles_found == before.created
            && after.status.current_game is None
            && after.created == before.created,
    }
}

impl ImportRun {
    /// A run for a user, starting from a fresh record; a refill starts from
    /// the user's number of due puzzles.
    pub fn begin(refill: bool, username: String, due_count: i64) -> (r: ImportRun)
        ensures
            r.refill == refill,
            fresh_fetching(r.status, username),
            r.total_games == 0 && r.created == 0 && r.current_due == due_count && !r.over,
    {
        ImportRun { refill, status: status_fetching(username), total_games: 0, created: 0, current_due: due_count, over: false }
    }

    /// Takes in what happened; says whether the run goes on.
    pub fn step(&mut self, event: RunEvent) -> (action: RunAction)
        requires
            !old(self).over,
            event matches RunEvent::GameStarted(i, _) ==> i < usize::MAX,
            event is PuzzleStored ==> old(self).created < usize::MAX && old(self).current_due < i64::MAX,
        ensures
            step_rel(*old(self), event, *final(self), action),
    {
        match event {
            RunEvent::UserFailed(m) => {
                mark_failed(&mut self.status, m);
                self.over = true;
                RunAction::Stop
            },
            RunEvent::FetchFailed(m) => {
                if self.refill {
                    mark_idle_with_error(&mut self.status, Some(m));
                } else {
                    mark_failed(&mut self.status, m);
                }
                self.over = true;
                RunAction::Stop
            },
            RunEvent::Fetched(n) => {
                if self.refill && n == 0 {
                    mark_idle_with_error(&mut self.status, None);
                    self.over = true;
                    RunAction::Stop
                } else {
                    mark_analyzing(&mut self.status, n);
                    self.total_games = n;
                    RunAction::Go
                }
            },
            RunEvent::GameStarted(i, label) => {
                mark_progress(&mut self.status, i, label, self.created);
                RunAction::Go
            },
            RunEvent::PuzzleStored => {
                self.created = self.created + 1;
                self.current_due = self.current_due + 1;
                if self.refill {
                    self.status.puzzles_found = self.created;
                }
                RunAction::Go
            },
            RunEvent::GameDone => {
                if self.refill && refill_reached(self.current_due) {
                    RunAction::Stop
                } else {
                    RunAction::Go
                }
            },
            RunEvent::Finished => {
                mark_completed(&mut self.status, self.total_games, self.created);
                self.over = true;
                RunAction::Stop
            },
        }
    }
}

/// The number of puzzles stored among the events.
pub open spec fn count_stored(events: Seq<RunEvent>) -> nat
    decreases events.len(),
{
    if events.len() == 0 {
        0
    } else {
        count_stored(events.drop_last()) + (if events.last() is PuzzleStored { 1nat } else { 0nat })
    }
}

/// `runs[i + 1]` and `actions[i]` are what `step` makes of `runs[i]` and
/// `events[i]`, each step taken before the run was over.
pub open spec fn is_trace(runs: Seq<ImportRun>, events: Seq<RunEvent>, actions: Seq<RunAction>) -> bool {
    &&& runs.len() == events.len() + 1
    &&& actions.len() == events.len()
    &&& forall|i: int| 0 <= i < events.len() ==> !runs[i].over && step_rel(runs[i], #[trigger] events[i], runs[i + 1], actions[i])
}

/// Along a run, the puzzles created are the puzzles stored so far.
pub proof fn lemma_trace_counts(runs: Seq<ImportRun>, events: Seq<RunEvent>, actions: Seq<RunAction>, k: int)
    requires
        is_trace(runs, events, actions),
        runs[0].created == 0,
        0 <= k <= events.len(),
    ensures
        runs[k].created == count_stored(events.take(k)),
    decreases k,
{
    if k > 0 {
        lemma_trace_counts(runs, events, actions, k - 1);
        assert(events.take(k).drop_last() =~= events.take(k - 1));
        assert(events.take(k).last() == events[k - 1]);
        assert(step_rel(runs[k - 1], events[k - 1], runs[k], actions[k - 1]));
    } else {
        assert(events.take(0) =~= Seq::<RunEvent>::empty());
    }
}

/// However the games went, a run that ends by finishing leaves the record
/// completed, with every fetched game counted as processed, every puzzle
/// stored during the run counted as found, and no game in progress.
pub proof fn law_finished_run_is_completed(runs: Seq<ImportRun>, events: Seq<RunEvent>, actions: Seq<RunAction>)
    requires
        is_trace(runs, events, actions),
        runs[0].created == 0,
        events.len() > 0,
        events.last() is Finished,
    ensures
        runs.last().over,
        runs.last().status.state@ == "completed"@,
        runs.last().status.processed_games == runs[events.len() - 1].total_games,
        runs.last().status.puzzles_found == count_stored(events),
        runs.last().status.current_game is None,
{
    let n = events.len() as int;
    lemma_trace_counts(runs, events, actions, n - 1);
    assert(step_rel(runs[n - 1], events[n - 1], runs[n], actions[n - 1]));
    assert(events.drop_last() =~= events.take(n - 1));
}

/// An import collects at most `max_games` games: starting below the limit,
/// adding the qualifying games of any archives never goes past it, and
/// only qualifying games are added.
pub proof fn law_fill_bounded(
    collected: Seq<ChessComGame>,
    games: Seq<ChessComGame>,
    time_classes: Seq<Seq<char>>,
    max_games: int,
)
    requires
        collected.len() < max_games,
    ensures
        collected.len() <= spec_fill(collected, games, time_classes, max_games).len() <= max_games,
        spec_fill(collected, games, time_classes, max_games).subrange(0, collected.len() as int) == collected,
        forall|i: int| collected.len() <= i < spec_fill(collected, games, time_classes, max_games).len()
            ==> spec_game_qualifies(#[trigger] spec_fill(collected, games, time_classes, max_games)[i], time_classes),
    decreases games.len(),
{
    let r = spec_fill(collected, games, time_classes, max_games);
    if games.len() > 0 {
        if !spec_game_qualifies(games[0], time_classes) {
            law_fill_bounded(collected, games.drop_first(), time_classes, max_games);
        } else {
            let next = collected.push(games[0]);
            if next.len() < max_games {
                law_fill_bounded(next, games.drop_first(), time_classes, max_games);
                assert(r.subrange(0, next.len() as int) == next);
                assert forall|j: int| 0 <= j < collected.len() implies r[j] == collected[j] by {
                    assert(r.subrange(0, next.len() as int)[j] == next[j]);
                }
                assert(r.subrange(0, collected.len() as int) =~= collected);
                assert forall|i: int| collected.len() <= i < r.len() implies spec_game_qualifies(#[trigger] r[i], time_classes) by {
                    if i == collected.len() {
                        assert(r[i] == r.subrange(0, next.len() as int)[i]);
                    }
                }
            } else {
                assert(r == next);
                assert(r.subrange(0, collected.len() as int) =~= collected);
            }
        }
    } else {
        assert(r.subrange(0, collected.len() as int) =~= collected);
    }
}

} // verus!
