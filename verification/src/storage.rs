//! The saved session: what it records of a game, how a game is rebuilt from
//! it, and the names and checks around saved files.
use vstd::prelude::*;
use vstd::string::StringExecFns;
use crate::chess::{fen_position, Position};
use crate::game::{
    automatic_result, illegal_move_message, note_text, read_move, step, too_long_message,
    vec_view, copy_strings, Difficulty, Game, Mode, MAX_PLIES,
};
use crate::headers::Headers;
use crate::pgn::{contradicts, is_valid_result, valid_result};
use crate::text::{decimal, push_decimal, str_eq};
use std::time::{Duration, SystemTime, SystemTimeError, UNIX_EPOCH};

verus! {

/// A game rebuilt move by move: its positions, moves and history lines.
pub type Replay = (Seq<Seq<char>>, Seq<Seq<char>>, Seq<Seq<char>>);

/// Replays the move texts `texts` from the position `start` as `parse_move` and
/// `play` do in a fresh game: the first text that does not read as a move, or
/// that cannot be played, stops it with that error.
pub open spec fn replay(start: Seq<char>, texts: Seq<Seq<char>>) -> Result<Replay, Seq<char>>
    decreases texts.len(),
{
    if texts.len() == 0 {
        Ok((seq![start], seq![], seq![]))
    } else {
        match replay(start, texts.drop_last()) {
            Err(e) => Err(e),
            Ok((fens, moves, notes)) => {
                let f = fens.last();
                match read_move(f, texts.last()) {
                    Err(e) => Err(e),
                    Ok(c) => {
                        if automatic_result(fens) is Some || step(f, c) is None {
                            Err(illegal_move_message())
                        } else if moves.len() >= MAX_PLIES {
                            Err(too_long_message())
                        } else {
                            let (u, n, s) = step(f, c)->0;
                            Ok((fens.push(n), moves.push(u), notes.push(note_text(f, s))))
                        }
                    },
                }
            },
        }
    }
}

/// Once a prefix of the texts fails to replay, the whole fails with that error.
proof fn lemma_replay_error(start: Seq<char>, texts: Seq<Seq<char>>, k: int)
    requires
        0 <= k <= texts.len(),
        replay(start, texts.take(k)) is Err,
    ensures
        replay(start, texts) == replay(start, texts.take(k)),
    decreases texts.len(),
{
    if k == texts.len() {
        assert(texts.take(k) == texts);
    } else {
        assert(texts.drop_last().take(k) == texts.take(k));
        lemma_replay_error(start, texts.drop_last(), k);
    }
}

/// A saved game: starting FEN, moves in UCI, players, result and board options.
pub struct Session {
    pub version: u32,
    pub initial_fen: String,
    pub moves: Vec<String>,
    pub mode: Mode,
    pub human: bool,
    pub difficulty: Difficulty,
    pub result: String,
    pub ending: String,
    pub flipped: bool,
    pub guides: bool,
    pub headers: Headers,
}

impl Session {
    /// Records a game with the board options.
    pub fn capture(game: &Game, flipped: bool, guides: bool) -> (r: Session)
        requires
            game.wf(),
        ensures
            r.version == 2,
            r.initial_fen@ == game.fens()[0],
            vec_view(r.moves@) == vec_view(game.moves@),
            r.mode == game.mode,
            r.human == game.human_white,
            r.difficulty == game.difficulty,
            r.result@ == game.result@,
            r.ending@ == game.ending@,
            r.flipped == flipped,
            r.guides == guides,
            r.headers@ == game.headers@,
    {
        Session {
            version: 2,
            initial_fen: String::from_str(game.positions[0].fen()),
            moves: copy_strings(&game.moves),
            mode: game.mode,
            human: game.human_white,
            difficulty: game.difficulty,
            result: game.result.clone(),
            ending: game.ending.clone(),
            flipped,
            guides,
            headers: game.headers.duplicate(),
        }
    }

    /// The error, if any, that rebuilding this session meets.
    pub open spec fn spec_error(&self) -> Option<Seq<char>> {
        if self.version != 2 {
            Some("Unknown saved-session version."@)
        } else {
            match fen_position(self.initial_fen@) {
                Err(e) => Some(e),
                Ok(start) => match replay(start, vec_view(self.moves@)) {
                    Err(e) => Some(e),
                    Ok((fens, _, _)) => if !valid_result(self.result@) {
                        Some("Invalid saved result."@)
                    } else if contradicts(automatic_result(fens), self.result@) {
                        Some("Saved result contradicts position."@)
                    } else {
                        None
                    },
                },
            }
        }
    }

    /// Rebuilds the game: the version must be 2, the starting FEN a position,
    /// every move legal in turn, and the result valid and not contradicted by
    /// the final position.
    pub fn game(self) -> (r: Result<(Game, bool, bool), String>)
        ensures
            match self.spec_error() {
                Some(e) => r is Err && r->Err_0@ == e,
                None => match r {
                    Ok((g, flipped, guides)) => {
                        let (fens, moves, notes) = replay(
                            fen_position(self.initial_fen@)->Ok_0,
                            vec_view(self.moves@),
                        )->Ok_0;
                        &&& g.wf()
                        &&& g.lawful()
                        &&& g.fens() == fens
                        &&& vec_view(g.moves@) == moves
                        &&& vec_view(g.notation@) == notes
                        &&& g.mode == self.mode
                        &&& g.human_white == self.human
                        &&& g.difficulty == self.difficulty
                        &&& g.result@ == self.result@
                        &&& g.ending@ == self.ending@
                        &&& g.headers@ == self.headers@
                        &&& flipped == self.flipped
                        &&& guides == self.guides
                    },
                    Err(_) => false,
                },
            },
    {
        if self.version != 2 {
            return Err(String::from_str("Unknown saved-session version."));
        }
        let initial = match Position::from_fen(self.initial_fen.as_str()) {
            Ok(p) => p,
            Err(e) => {
                return Err(e);
            },
        };
        let ghost start = initial@;
        let ghost texts = vec_view(self.moves@);
        let mut game = Game::new(initial);
        assert(texts.take(0) =~= Seq::<Seq<char>>::empty());
        assert(vec_view(game.moves@) =~= Seq::<Seq<char>>::empty());
        assert(vec_view(game.notation@) =~= Seq::<Seq<char>>::empty());
        for i in 0..self.moves.len()
            invariant
                texts == vec_view(self.moves@),
                self.version == 2,
                fen_position(self.initial_fen@) == Ok::<Seq<char>, Seq<char>>(start),
                game.wf(),
                game.lawful(),
                game.mode == Mode::Computer,
                game.result@ == "*"@,
                replay(start, texts.take(i as int)) == Ok::<Replay, Seq<char>>(
                    (game.fens(), vec_view(game.moves@), vec_view(game.notation@)),
                ),
        {
            assert(texts.take(i + 1).drop_last() == texts.take(i as int));
            assert(texts.take(i + 1).last() == self.moves@[i as int]@);
            let m = match game.parse_move(self.moves[i].as_str()) {
                Ok(m) => m,
                Err(e) => {
                    proof {
                        assert(read_move(game.current(), texts.take(i + 1).last()) == Err::<
                            Seq<char>,
                            Seq<char>,
                        >(e@));
                        assert(replay(start, texts.take(i + 1)) == Err::<Replay, Seq<char>>(e@));
                        lemma_replay_error(start, texts, i + 1);
                    }
                    return Err(e);
                },
            };
            let ghost before = game;
            assert(read_move(game.current(), texts.take(i + 1).last()) == Ok::<Seq<char>, Seq<char>>(
                m@,
            ));
            assert(vec_view(game.moves@).len() == game.moves@.len());
            proof {
                reveal_strlit("*");
                assert(!before.spec_finished() <==> automatic_result(before.fens()) is None);
            }
            match game.play(m.as_str()) {
                Ok(()) => {},
                Err(e) => {
                    proof {
                        let t = texts.take(i + 1);
                        assert(t.drop_last() == texts.take(i as int));
                        assert(before.fens().last() == before.current());
                        if automatic_result(before.fens()) is Some || step(before.current(), m@) is None {
                            assert(e@ == illegal_move_message());
                        } else {
                            assert(e@ == too_long_message());
                            assert(before.moves@.len() >= MAX_PLIES);
                        }
                        assert(replay(start, t) == Err::<Replay, Seq<char>>(e@));
                        lemma_replay_error(start, texts, i + 1);
                    }
                    return Err(e);
                },
            }
        }
        assert(texts.take(self.moves.len() as int) == texts);
        if !is_valid_result(self.result.as_str()) {
            return Err(String::from_str("Invalid saved result."));
        }
        match game.automatic_result() {
            Some((actual, _)) => {
                if !str_eq(self.result.as_str(), "*") && !str_eq(self.result.as_str(), actual) {
                    return Err(String::from_str("Saved result contradicts position."));
                }
            },
            None => {},
        }
        game.mode = self.mode;
        game.human_white = self.human;
        game.difficulty = self.difficulty;
        game.result = self.result;
        game.ending = self.ending;
        game.headers = self.headers;
        Ok((game, self.flipped, self.guides))
    }
}

/// Whether a saved session file is one of the earlier Python preview: its
/// `version` field is the number 1. Any other file is read as a session.
pub fn legacy_save(version: Option<u64>) -> (r: bool)
    ensures
        r == (version == Some(1u64)),
{
    match version {
        Some(v) => v == 1,
        None => false,
    }
}

/// Checks a file's length against a limit; the message names the limit.
pub fn check_size(len: usize, limit: usize) -> (r: Result<(), String>)
    ensures
        match r {
            Ok(()) => len <= limit,
            Err(e) => len > limit && e@ == "File is too large (maximum "@ + decimal(limit as nat)
                + " bytes)."@,
        },
{
    if len > limit {
        let mut s = String::from_str("File is too large (maximum ");
        push_decimal(&mut s, limit as u128);
        s.append(" bytes).");
        return Err(s);
    }
    Ok(())
}

/// The kinds of file kept in the archive directory.
#[derive(Clone, Copy, Debug, PartialEq, Eq, Structural)]
pub enum ArchiveKind {
    /// A finished or started game, as PGN.
    Game,
    /// A copy of a session file that could not be loaded.
    Recovery,
    /// A session of the earlier Python preview, kept before migration.
    Legacy,
}

/// The file name under `archive/` for a stamp.
pub fn archive_name(stamp: &str, kind: ArchiveKind) -> (r: String)
    ensures
        r@ == stamp@ + match kind {
            ArchiveKind::Game => ".pgn"@,
            ArchiveKind::Recovery => "-recovery.json"@,
            ArchiveKind::Legacy => "-python-session.json"@,
        },
{
    let mut s = String::from_str(stamp);
    s.append(
        match kind {
            ArchiveKind::Game => ".pgn",
            ArchiveKind::Recovery => "-recovery.json",
            ArchiveKind::Legacy => "-python-session.json",
        },
    );
    s
}

/// What archiving a game before it is replaced keeps: a recovery copy of the
/// session file when asked for and present, and the game when it has a move or
/// a result.
pub fn archive_plan(game: &Game, recovery: bool, session_exists: bool) -> (r: (bool, bool))
    requires
        game.wf(),
    ensures
        r.0 == (recovery && session_exists),
        r.1 == (game.moves@.len() > 0 || game.spec_finished()),
{
    (recovery && session_exists, game.moves.len() > 0 || game.finished())
}

/// Turns a game imported from the PGN of an earlier Python session into the
/// session's game: only version 1 is read, and the players, strength and
/// ending come from the session.
pub fn legacy_game(
    version: u32,
    imported: Result<Game, String>,
    mode: Mode,
    human: bool,
    difficulty: Difficulty,
    ending: String,
) -> (r: Result<Game, String>)
    ensures
        version != 1 ==> r is Err && r->Err_0@ == "Unknown legacy version"@,
        version == 1 ==> match imported {
            Err(e) => r is Err && r->Err_0@ == e@,
            Ok(g) => match r {
                Ok(h) => {
                    &&& h.fens() == g.fens()
                    &&& h.moves == g.moves
                    &&& h.notation == g.notation
                    &&& h.result == g.result
                    &&& h.headers@ == g.headers@
                    &&& h.mode == mode
                    &&& h.human_white == human
                    &&& h.difficulty == difficulty
                    &&& h.ending@ == ending@
                    &&& g.wf() ==> h.wf()
                    &&& g.lawful() ==> h.lawful()
                },
                Err(_) => false,
            },
        },
{
    if version != 1 {
        return Err(String::from_str("Unknown legacy version"));
    }
    match imported {
        Err(e) => Err(e),
        Ok(mut g) => {
            let ghost g0 = g;
            g.mode = mode;
            g.human_white = human;
            g.difficulty = difficulty;
            g.ending = ending;
            assert(g.fens() == g0.fens());
            Ok(g)
        },
    }
}

/// A reading of the system clock: std's `SystemTime`.
#[verifier::external_type_specification]
#[verifier::external_body]
pub struct ExSystemTime(SystemTime);

/// The error of a clock reading before a given time: std's `SystemTimeError`.
#[verifier::external_type_specification]
#[verifier::external_body]
pub struct ExSystemTimeError(SystemTimeError);

/// std's `SystemTime::now`. Nothing is stated of the reading: it is the time.
#[verifier::external_body]
fn clock_now() -> (r: SystemTime) {
    SystemTime::now()
}

/// std's `SystemTime::duration_since`, from the Unix epoch: the time since
/// then, or an error when the reading lies before it. Nothing is stated of
/// which comes back: it depends on the clock.
#[verifier::external_body]
fn since_epoch(t: &SystemTime) -> (r: Result<Duration, SystemTimeError>) {
    t.duration_since(UNIX_EPOCH)
}

/// std's `Duration::as_nanos`. `Duration` is opaque here, so nothing is stated
/// of the count.
#[verifier::external_body]
fn duration_nanos(d: &Duration) -> (r: u128) {
    d.as_nanos()
}

/// The archive stamp of a clock reading: the nanoseconds elapsed since the
/// Unix epoch in decimal, `0` for a reading before the epoch (`None`).
pub fn stamp_of(elapsed: Option<u128>) -> (r: String)
    ensures
        r@ == stamp_of_spec(elapsed),
{
    let n: u128 = match elapsed {
        Some(n) => n,
        None => 0,
    };
    crate::text::decimal_string(n)
}

/// A time stamp for archive file names: the stamp of the system clock now.
/// Which reading the clock gives is not stated; `stamp_of` states the rest.
pub fn stamp() -> (r: String)
    ensures
        exists|e: Option<u128>| r@ == #[trigger] stamp_of_spec(e),
{
    let now = clock_now();
    let elapsed = match since_epoch(&now) {
        Ok(d) => Some(duration_nanos(&d)),
        Err(_) => None,
    };
    stamp_of(elapsed)
}

/// What `stamp_of` gives for a clock reading.
pub open spec fn stamp_of_spec(elapsed: Option<u128>) -> Seq<char> {
    match elapsed {
        Some(n) => decimal(n as nat),
        None => decimal(0),
    }
}

/// Saving and loading keeps any played game: a session captured from it
/// rebuilds the same positions, moves and history, so repetitions survive.
/// What shakmaty returns is named, not stated, so this holds provided that it
/// reads the starting FEN and each recorded move back as themselves.
pub proof fn lemma_session_round_trip(g: Game, flipped: bool, guides: bool, s: Session)
    requires
        g.lawful(),
        fen_position(g.fens()[0]) == Ok::<Seq<char>, Seq<char>>(g.fens()[0]),
        forall|i: int|
            0 <= i < g.moves@.len() ==> read_move(g.fens()[i], #[trigger] g.moves@[i]@) == Ok::<
                Seq<char>,
                Seq<char>,
            >(g.moves@[i]@),
        forall|i: int|
            0 <= i < g.moves@.len() ==> crate::chess::fen_uci_move(
                g.fens()[i],
                #[trigger] g.moves@[i]@,
            ) == Some(Some(g.moves@[i]@)),
        s.version == 2,
        s.initial_fen@ == g.fens()[0],
        vec_view(s.moves@) == vec_view(g.moves@),
        s.result@ == g.result@,
    ensures
        s.spec_error() is None,
        replay(g.fens()[0], vec_view(s.moves@)) == Ok::<Replay, Seq<char>>(
            (g.fens(), vec_view(g.moves@), vec_view(g.notation@)),
        ),
{
    let n = g.moves@.len() as int;
    let texts = vec_view(g.moves@);
    let fens = g.fens();
    let notes = vec_view(g.notation@);
    assert forall|k: int| 0 <= k <= n implies replay(fens[0], #[trigger] texts.take(k)) == Ok::<
        Replay,
        Seq<char>,
    >((fens.take(k + 1), texts.take(k), notes.take(k))) by {
        lemma_replay_prefix(g, k);
    }
    assert(texts.take(n as int) == texts);
    assert(fens.take(n + 1) == fens);
    assert(notes.take(n as int) == notes);
}

proof fn lemma_replay_prefix(g: Game, k: int)
    requires
        g.wf(),
        0 <= k <= g.moves@.len(),
        forall|i: int|
            0 <= i < g.moves@.len() ==> read_move(g.fens()[i], #[trigger] g.moves@[i]@) == Ok::<
                Seq<char>,
                Seq<char>,
            >(g.moves@[i]@),
        forall|i: int|
            0 <= i < g.moves@.len() ==> crate::chess::fen_uci_move(
                g.fens()[i],
                #[trigger] g.moves@[i]@,
            ) == Some(Some(g.moves@[i]@)),
        forall|i: int| 0 <= i < g.moves@.len() ==> automatic_result(#[trigger] g.fens().take(i + 1)) is None,
        g.moves@.len() <= MAX_PLIES,
    ensures
        replay(g.fens()[0], vec_view(g.moves@).take(k)) == Ok::<Replay, Seq<char>>(
            (g.fens().take(k + 1), vec_view(g.moves@).take(k), vec_view(g.notation@).take(k)),
        ),
    decreases k,
{
    let texts = vec_view(g.moves@);
    let fens = g.fens();
    let notes = vec_view(g.notation@);
    if k == 0 {
        assert(texts.take(0) =~= Seq::<Seq<char>>::empty());
        assert(fens.take(1) =~= seq![fens[0]]);
        assert(notes.take(0) =~= Seq::<Seq<char>>::empty());
    } else {
        let i = k - 1;
        lemma_replay_prefix(g, i);
        let t = texts.take(k);
        assert(t.drop_last() == texts.take(i));
        assert(t.last() == g.moves@[i]@);
        assert(fens.take(i + 1).last() == fens[i]);
        assert(read_move(fens[i], g.moves@[i]@) == Ok::<Seq<char>, Seq<char>>(g.moves@[i]@));
        assert(automatic_result(fens.take(i + 1)) is None);
        assert(crate::game::played(fens[i], g.moves@[i]@, fens[i + 1], g.notation@[i]@));
        assert(texts.take(i).len() == i);
        assert(fens.take(k + 1) =~= fens.take(i + 1).push(fens[i + 1]));
        assert(texts.take(k) =~= texts.take(i).push(g.moves@[i]@));
        assert(notes.take(k) =~= notes.take(i).push(g.notation@[i]@));
    }
}

} // verus!
