//! Import of one PGN game, driven tag by tag and move by move by a PGN reader.
use vstd::prelude::*;
use crate::chess::{fen_position, fen_san_move, fen_uci_move, start_fen, Position};
use crate::game::{
    automatic_result, illegal_move_message, note_text, step, too_long_message, vec_view, Difficulty,
    Game, Mode, MAX_PGN, MAX_PLIES,
};
use crate::headers::{
    hdefault, hget, hput, hremove, lemma_get_at, lemma_get_none, lemma_get_push, lemma_lt_irreflexive,
    lemma_put_get, lemma_put_sorted, lemma_remove, lemma_remove_get, sorted,
};
use crate::text::seq_lt;
use crate::text::{chars_of, str_eq, trim};

verus! {

/// The outcome that a PGN game text ends with.
#[derive(Clone, Copy, Debug, PartialEq, Eq, Structural)]
pub enum PgnOutcome {
    WhiteWins,
    BlackWins,
    Draw,
}

/// The result text of an outcome, `*` for none.
pub open spec fn outcome_text(o: Option<PgnOutcome>) -> Seq<char> {
    match o {
        None => "*"@,
        Some(PgnOutcome::WhiteWins) => "1-0"@,
        Some(PgnOutcome::BlackWins) => "0-1"@,
        Some(PgnOutcome::Draw) => "1/2-1/2"@,
    }
}

/// Whether `r` is one of the four PGN results.
pub open spec fn valid_result(r: Seq<char>) -> bool {
    r == "*"@ || r == "1-0"@ || r == "0-1"@ || r == "1/2-1/2"@
}

/// Whether `v` names standard chess as a PGN `Variant` tag.
pub open spec fn standard_variant(v: Seq<char>) -> bool {
    v == "Standard"@ || v == "Chess"@ || v == "Normal"@
}

/// `s` without leading byte order marks.
pub open spec fn strip_bom(s: Seq<char>) -> Seq<char>
    decreases s.len(),
{
    if s.len() > 0 && s[0] == '\u{feff}' {
        strip_bom(s.drop_first())
    } else {
        s
    }
}

/// Whether `r` is one of the four PGN results.
pub fn is_valid_result(r: &str) -> (b: bool)
    ensures
        b == valid_result(r@),
{
    str_eq(r, "*") || str_eq(r, "1-0") || str_eq(r, "0-1") || str_eq(r, "1/2-1/2")
}

/// The text of a PGN file that is read for a game: refused when it is over
/// `MAX_PGN` bytes or blank, else without its leading byte order marks.
pub fn pgn_body(text: &str) -> (r: Result<String, String>)
    ensures
        match r {
            Ok(body) => text.len() <= MAX_PGN && trim(text@).len() > 0 && body@ == strip_bom(text@),
            Err(e) => (text.len() > MAX_PGN || trim(text@).len() == 0) && e@
                == "PGN must contain one game, at most 1 MB."@,
        },
{
    let cs = chars_of(text);
    if text.len() > MAX_PGN || crate::text::trim_chars(cs.as_slice()).len() == 0 {
        return Err(String::from_str("PGN must contain one game, at most 1 MB."));
    }
    let mut i: usize = 0;
    assert(cs@.skip(0) == cs@);
    while i < cs.len() && cs[i] == '\u{feff}'
        invariant
            i <= cs@.len(),
            cs@ == text@,
            strip_bom(text@) == strip_bom(cs@.skip(i as int)),
        decreases cs.len() - i,
    {
        assert(cs@.skip(i as int).drop_first() == cs@.skip(i + 1));
        i = i + 1;
    }
    let mut out = String::new();
    let ghost rest = cs@.skip(i as int);
    assert(strip_bom(rest) == rest) by {
        if rest.len() > 0 {
            assert(rest[0] == cs@[i as int]);
        }
    }
    let mut j = i;
    while j < cs.len()
        invariant
            i <= j <= cs@.len(),
            out@ == cs@.subrange(i as int, j as int),
        decreases cs.len() - j,
    {
        crate::text::push_char(&mut out, cs[j]);
        assert(cs@.subrange(i as int, j + 1) == cs@.subrange(i as int, j as int).push(cs@[j as int]));
        j = j + 1;
    }
    assert(out@ =~= rest);
    Ok(out)
}

/// The decision after reading a PGN file: its first game (`None` when it holds
/// none) is imported unless another game follows.
pub fn single_game(first: Option<Result<Game, String>>, another: bool) -> (r: Result<Game, String>)
    ensures
        match first {
            None => r is Err && r->Err_0@ == "PGN is empty."@,
            Some(Err(e)) => r is Err && r->Err_0@ == e@,
            Some(Ok(g)) => if another {
                r is Err && r->Err_0@ == "Import one game at a time."@
            } else {
                r == Ok::<Game, String>(g)
            },
        },
{
    match first {
        None => Err(String::from_str("PGN is empty.")),
        Some(Err(e)) => Err(e),
        Some(Ok(g)) => if another {
            Err(String::from_str("Import one game at a time."))
        } else {
            Ok(g)
        },
    }
}

/// What an import has read so far, as plain values: the positions, moves and
/// history lines of its game, the first error met, the result announced by tag
/// or outcome, and whether anything was read.
pub struct ImportState {
    pub fens: Seq<Seq<char>>,
    pub moves: Seq<Seq<char>>,
    pub notes: Seq<Seq<char>>,
    pub error: Option<Seq<char>>,
    pub result: Option<Seq<char>>,
    pub saw_data: bool,
}

/// The state before anything is read: the standard position, no moves.
pub open spec fn import_start() -> ImportState {
    ImportState {
        fens: seq![start_fen()],
        moves: seq![],
        notes: seq![],
        error: None,
        result: None,
        saw_data: false,
    }
}

/// Reading the tag `key` with `value`: `FEN` sets the starting position up,
/// `Variant` must name standard chess, `Result` is remembered.
pub open spec fn header_step(s: ImportState, key: Seq<char>, value: Seq<char>) -> ImportState {
    let set_up = key == "FEN"@ && fen_position(value) is Ok;
    ImportState {
        fens: if set_up {
            seq![fen_position(value)->Ok_0]
        } else {
            s.fens
        },
        moves: if set_up {
            seq![]
        } else {
            s.moves
        },
        notes: if set_up {
            seq![]
        } else {
            s.notes
        },
        error: if key == "FEN"@ && fen_position(value) is Err {
            Some("Invalid PGN starting position."@)
        } else if key == "Variant"@ && !standard_variant(value) {
            Some("Only standard chess is supported."@)
        } else {
            s.error
        },
        result: if key == "Result"@ {
            Some(value)
        } else {
            s.result
        },
        saw_data: true,
    }
}

/// `s` with an error set and something read.
pub open spec fn with_error(s: ImportState, e: Seq<char>) -> ImportState {
    ImportState {
        fens: s.fens,
        moves: s.moves,
        notes: s.notes,
        error: Some(e),
        result: s.result,
        saw_data: true,
    }
}

/// Reading a move written `text` in SAN: once an error is met moves are only
/// counted as data; else the move is played as `Game::play` plays it.
pub open spec fn san_step(s: ImportState, text: Seq<char>) -> ImportState {
    let f = s.fens.last();
    if s.error is Some {
        ImportState {
            fens: s.fens,
            moves: s.moves,
            notes: s.notes,
            error: s.error,
            result: s.result,
            saw_data: true,
        }
    } else {
        match fen_san_move(f, text) {
            Err(e) => with_error(s, e),
            Ok(c) => if automatic_result(s.fens) is Some || step(f, c) is None {
                with_error(s, illegal_move_message())
            } else if s.moves.len() >= MAX_PLIES {
                with_error(s, too_long_message())
            } else {
                let (u, n, san) = step(f, c)->0;
                ImportState {
                    fens: s.fens.push(n),
                    moves: s.moves.push(u),
                    notes: s.notes.push(note_text(f, san)),
                    error: None,
                    result: s.result,
                    saw_data: true,
                }
            },
        }
    }
}

/// Reading the outcome that ends the movetext; it must agree with a `Result` tag.
pub open spec fn outcome_step(s: ImportState, o: Option<PgnOutcome>) -> ImportState {
    ImportState {
        fens: s.fens,
        moves: s.moves,
        notes: s.notes,
        error: match s.result {
            Some(h) => if h != outcome_text(o) {
                Some("PGN result header and movetext disagree."@)
            } else {
                s.error
            },
            None => s.error,
        },
        result: Some(outcome_text(o)),
        saw_data: true,
    }
}

/// How an import in state `s` ends: the first error, an empty game, an unknown
/// result or one that the final position contradicts refuse it; else the result.
pub open spec fn import_end(s: ImportState) -> Result<Seq<char>, Seq<char>> {
    let res = match s.result {
        Some(x) => x,
        None => "*"@,
    };
    match s.error {
        Some(e) => Err(e),
        None => if !s.saw_data {
            Err("No chess game found."@)
        } else if !valid_result(res) {
            Err("Invalid game result."@)
        } else if contradicts(automatic_result(s.fens), res) {
            Err("Result contradicts the final position."@)
        } else {
            Ok(res)
        },
    }
}

/// One event of reading a PGN game.
pub enum PgnEvent {
    Tag(Seq<char>, Seq<char>),
    Move(Seq<char>),
    End(Option<PgnOutcome>),
}

pub open spec fn event_step(s: ImportState, e: PgnEvent) -> ImportState {
    match e {
        PgnEvent::Tag(k, v) => header_step(s, k, v),
        PgnEvent::Move(t) => san_step(s, t),
        PgnEvent::End(o) => outcome_step(s, o),
    }
}

/// The state after reading `evs` from `s`, in order.
pub open spec fn import_events(s: ImportState, evs: Seq<PgnEvent>) -> ImportState
    decreases evs.len(),
{
    if evs.len() == 0 {
        s
    } else {
        event_step(import_events(s, evs.drop_last()), evs.last())
    }
}

/// The state of importing one game: the game so far, the first error met, the
/// result announced by tag or outcome, and whether anything was read.
pub struct PgnImport {
    pub game: Game,
    pub error: Option<String>,
    pub result: Option<String>,
    pub saw_data: bool,
}

impl View for PgnImport {
    type V = ImportState;

    open spec fn view(&self) -> ImportState {
        ImportState {
            fens: self.game.fens(),
            moves: vec_view(self.game.moves@),
            notes: vec_view(self.game.notation@),
            error: opt_string_view(self.error),
            result: opt_string_view(self.result),
            saw_data: self.saw_data,
        }
    }
}

impl PgnImport {
    /// The game could have been played and has no result of its own yet.
    pub open spec fn wf(&self) -> bool {
        &&& self.game.lawful()
        &&& self.game.result@ == "*"@
    }

    /// The state at the start of a game: a two-person game from the standard
    /// position, nothing read.
    pub fn new() -> (r: PgnImport)
        ensures
            r.wf(),
            r@ == import_start(),
            r.game.mode == Mode::Local,
            r.game.human_white,
            r.game.difficulty == Difficulty::Casual,
            r.game.ending@ == Seq::<char>::empty(),
            r.game.headers@ == Seq::<(Seq<char>, Seq<char>)>::empty(),
    {
        let mut game = Game::new(Position::start());
        game.mode = Mode::Local;
        let r = PgnImport { game, error: None, result: None, saw_data: false };
        assert(vec_view(r.game.moves@) =~= Seq::<Seq<char>>::empty());
        assert(vec_view(r.game.notation@) =~= Seq::<Seq<char>>::empty());
        r
    }

    /// Reads one tag: `Variant` must name standard chess, `FEN` sets the
    /// starting position, `Result` is remembered, and every tag is kept.
    pub fn header(&mut self, key: &str, value: &str)
        requires
            old(self).wf(),
        ensures
            final(self).wf(),
            final(self)@ == header_step(old(self)@, key@, value@),
            final(self).game.headers@ == hput(old(self).game.headers@, key@, value@),
            final(self).game.mode == old(self).game.mode,
            final(self).game.human_white == old(self).game.human_white,
            final(self).game.difficulty == old(self).game.difficulty,
            final(self).game.ending == old(self).game.ending,
    {
        self.saw_data = true;
        if str_eq(key, "Variant") && !(str_eq(value, "Standard") || str_eq(value, "Chess")
            || str_eq(value, "Normal")) {
            self.error = Some(String::from_str("Only standard chess is supported."));
        }
        if str_eq(key, "FEN") {
            match Position::from_fen(value) {
                Ok(p) => {
                    self.game.restart(p);
                    assert(vec_view(self.game.moves@) =~= Seq::<Seq<char>>::empty());
                    assert(vec_view(self.game.notation@) =~= Seq::<Seq<char>>::empty());
                },
                Err(_) => {
                    self.error = Some(String::from_str("Invalid PGN starting position."));
                },
            }
        }
        if str_eq(key, "Result") {
            self.result = Some(String::from_str(value));
        }
        self.game.set_header(key, value);
        proof {
            reveal_strlit("FEN");
            reveal_strlit("Variant");
            assert("FEN"@ != "Variant"@) by {
                assert("FEN"@.len() != "Variant"@.len());
            }
        }
    }

    /// Reads one move in SAN; after an error, moves are only counted as data.
    pub fn san(&mut self, text: &str)
        requires
            old(self).wf(),
        ensures
            final(self).wf(),
            final(self)@ == san_step(old(self)@, text@),
            final(self).game.same_setup(&old(self).game),
            final(self).game.ending@ == old(self).game.ending@,
    {
        self.saw_data = true;
        if self.error.is_some() {
            return;
        }
        let r = self.game.position().san_move(text);
        match r {
            Ok(c) => {
                match self.game.play(c.as_str()) {
                    Ok(()) => {},
                    Err(e) => {
                        self.error = Some(e);
                    },
                }
            },
            Err(e) => {
                self.error = Some(e);
            },
        }
    }

    /// Reads the outcome that ends the movetext; it must agree with a `Result` tag.
    pub fn outcome(&mut self, outcome: Option<PgnOutcome>)
        requires
            old(self).wf(),
        ensures
            final(self).wf(),
            final(self)@ == outcome_step(old(self)@, outcome),
            final(self).game == old(self).game,
    {
        let text = match outcome {
            None => "*",
            Some(PgnOutcome::WhiteWins) => "1-0",
            Some(PgnOutcome::BlackWins) => "0-1",
            Some(PgnOutcome::Draw) => "1/2-1/2",
        };
        match &self.result {
            Some(header) => {
                if !str_eq(header.as_str(), text) {
                    self.error = Some(String::from_str("PGN result header and movetext disagree."));
                }
            },
            None => {},
        }
        self.result = Some(String::from_str(text));
        self.saw_data = true;
    }

    /// Ends the game: the first error, an empty game, an unknown result or one
    /// that the final position contradicts refuse it; else the game with that result.
    pub fn end_game(self) -> (r: Result<Game, String>)
        requires
            self.wf(),
        ensures
            match import_end(self@) {
                Err(e) => r is Err && r->Err_0@ == e,
                Ok(res) => match r {
                    Ok(g) => {
                        &&& g.wf()
                        &&& g.lawful()
                        &&& g.fens() == self@.fens
                        &&& vec_view(g.moves@) == self@.moves
                        &&& vec_view(g.notation@) == self@.notes
                        &&& g.same_setup(&self.game)
                        &&& g.result@ == res
                        &&& g.ending@ == if res == "*"@ {
                            self.game.ending@
                        } else {
                            "Imported result"@
                        }
                    },
                    Err(_) => false,
                },
            },
    {
        let PgnImport { mut game, error, result, saw_data } = self;
        if let Some(e) = error {
            return Err(e);
        }
        if !saw_data {
            return Err(String::from_str("No chess game found."));
        }
        let res = match result {
            Some(x) => x,
            None => String::from_str("*"),
        };
        if !is_valid_result(res.as_str()) {
            return Err(String::from_str("Invalid game result."));
        }
        match game.automatic_result() {
            Some((actual, _)) => {
                if !str_eq(res.as_str(), "*") && !str_eq(res.as_str(), actual) {
                    return Err(String::from_str("Result contradicts the final position."));
                }
            },
            None => {},
        }
        let done = !str_eq(res.as_str(), "*");
        let ghost g0 = game;
        game.result = res;
        if done {
            game.ending = String::from_str("Imported result");
        }
        assert(game.fens() == g0.fens());
        let r = game.duplicate();
        Ok(r)
    }
}

/// The tag events of the tags `tags`, in order.
pub open spec fn tag_events(tags: Seq<(Seq<char>, Seq<char>)>) -> Seq<PgnEvent> {
    tags.map_values(|t: (Seq<char>, Seq<char>)| PgnEvent::Tag(t.0, t.1))
}

/// The move events of the texts `texts`, in order.
pub open spec fn move_events(texts: Seq<Seq<char>>) -> Seq<PgnEvent> {
    texts.map_values(|t: Seq<char>| PgnEvent::Move(t))
}

/// The outcome that closes the movetext of a game with result `r`.
pub open spec fn result_outcome(r: Seq<char>) -> Option<PgnOutcome> {
    if r == "1-0"@ {
        Some(PgnOutcome::WhiteWins)
    } else if r == "0-1"@ {
        Some(PgnOutcome::BlackWins)
    } else if r == "1/2-1/2"@ {
        Some(PgnOutcome::Draw)
    } else {
        None
    }
}

/// What reading the PGN export of `g` delivers: its tags, the texts `sans`
/// read for its moves, and the outcome of its result.
pub open spec fn pgn_events(g: Game, sans: Seq<Seq<char>>) -> Seq<PgnEvent> {
    tag_events(g.pgn_tags()) + move_events(sans) + seq![PgnEvent::End(result_outcome(g.spec_result_text()))]
}

/// The state after reading the tags `hs` from the start, when each of them is accepted.
pub open spec fn tags_state(hs: Seq<(Seq<char>, Seq<char>)>) -> ImportState {
    ImportState {
        fens: match hget(hs, "FEN"@) {
            Some(v) => seq![fen_position(v)->Ok_0],
            None => seq![start_fen()],
        },
        moves: seq![],
        notes: seq![],
        error: None,
        result: hget(hs, "Result"@),
        saw_data: hs.len() > 0,
    }
}

proof fn lemma_events_append(s: ImportState, a: Seq<PgnEvent>, b: Seq<PgnEvent>)
    ensures
        import_events(s, a + b) == import_events(import_events(s, a), b),
    decreases b.len(),
{
    if b.len() == 0 {
        assert(a + b =~= a);
    } else {
        assert((a + b).drop_last() =~= a + b.drop_last());
        assert((a + b).last() == b.last());
        lemma_events_append(s, a, b.drop_last());
    }
}

proof fn lemma_tags_fold(tags: Seq<(Seq<char>, Seq<char>)>, k: int)
    requires
        sorted(tags),
        0 <= k <= tags.len(),
        forall|i: int|
            0 <= i < tags.len() && #[trigger] tags[i].0 == "FEN"@ ==> fen_position(tags[i].1) is Ok,
        forall|i: int|
            0 <= i < tags.len() && #[trigger] tags[i].0 == "Variant"@ ==> standard_variant(tags[i].1),
    ensures
        import_events(import_start(), tag_events(tags).take(k)) == tags_state(tags.take(k)),
    decreases k,
{
    if k == 0 {
        assert(tag_events(tags).take(0) =~= Seq::<PgnEvent>::empty());
        assert(tags.take(0) =~= Seq::<(Seq<char>, Seq<char>)>::empty());
    } else {
        let j = k - 1;
        lemma_tags_fold(tags, j);
        let x = tags[j];
        let evs = tag_events(tags).take(k);
        assert(evs.drop_last() =~= tag_events(tags).take(j));
        assert(evs.last() == PgnEvent::Tag(x.0, x.1));
        let before = tags.take(j);
        assert(tags.take(k) =~= before.push(x));
        assert forall|i: int| 0 <= i < before.len() implies #[trigger] before[i].0 != x.0 by {
            assert(seq_lt(tags[i].0, tags[j].0));
            lemma_lt_irreflexive(tags[i].0);
        }
        lemma_get_none(before, x.0);
        lemma_get_push(before, x, "FEN"@);
        lemma_get_push(before, x, "Result"@);
        reveal_strlit("FEN");
        reveal_strlit("Variant");
        assert("FEN"@ != "Variant"@) by {
            assert("FEN"@.len() != "Variant"@.len());
        }
        assert(tags_state(tags.take(k)).saw_data);
    }
}

proof fn lemma_moves_fold(g: Game, sans: Seq<Seq<char>>, s0: ImportState, i: int)
    requires
        g.wf(),
        0 <= i <= sans.len(),
        sans.len() == g.moves@.len(),
        g.moves@.len() <= MAX_PLIES,
        forall|j: int|
            0 <= j < sans.len() ==> fen_san_move(g.fens()[j], #[trigger] sans[j]) == Ok::<
                Seq<char>,
                Seq<char>,
            >(g.moves@[j]@),
        forall|j: int|
            0 <= j < g.moves@.len() ==> fen_uci_move(g.fens()[j], #[trigger] g.moves@[j]@) == Some(
                Some(g.moves@[j]@),
            ),
        forall|j: int| 0 <= j < g.moves@.len() ==> automatic_result(#[trigger] g.fens().take(j + 1)) is None,
        s0.fens == seq![g.fens()[0]],
        s0.moves == Seq::<Seq<char>>::empty(),
        s0.notes == Seq::<Seq<char>>::empty(),
        s0.error is None,
        s0.saw_data,
    ensures
        import_events(s0, move_events(sans).take(i)) == (ImportState {
            fens: g.fens().take(i + 1),
            moves: vec_view(g.moves@).take(i),
            notes: vec_view(g.notation@).take(i),
            error: None,
            result: s0.result,
            saw_data: true,
        }),
    decreases i,
{
    let fens = g.fens();
    let mv = vec_view(g.moves@);
    let notes = vec_view(g.notation@);
    if i == 0 {
        assert(move_events(sans).take(0) =~= Seq::<PgnEvent>::empty());
        assert(fens.take(1) =~= seq![fens[0]]);
        assert(mv.take(0) =~= Seq::<Seq<char>>::empty());
        assert(notes.take(0) =~= Seq::<Seq<char>>::empty());
    } else {
        let j = i - 1;
        lemma_moves_fold(g, sans, s0, j);
        let evs = move_events(sans).take(i);
        assert(evs.drop_last() =~= move_events(sans).take(j));
        assert(evs.last() == PgnEvent::Move(sans[j]));
        let m = g.moves@[j]@;
        assert(fens.take(j + 1).last() == fens[j]);
        assert(fen_san_move(fens[j], sans[j]) == Ok::<Seq<char>, Seq<char>>(m));
        assert(fen_uci_move(fens[j], m) == Some(Some(m)));
        assert(automatic_result(fens.take(j + 1)) is None);
        assert(crate::game::played(fens[j], m, fens[j + 1], g.notation@[j]@));
        assert(mv.take(j).len() == j);
        assert(mv[j] == m);
        assert(notes[j] == g.notation@[j]@);
        assert(fens.take(i + 1) =~= fens.take(j + 1).push(fens[j + 1]));
        assert(mv.take(i) =~= mv.take(j).push(m));
        assert(notes.take(i) =~= notes.take(j).push(g.notation@[j]@));
    }
}

/// The tags that export writes are sorted, carry the result text, the starting
/// FEN exactly when the game starts elsewhere than the standard position, and
/// the game's own `Variant`.
proof fn lemma_pgn_tags(g: Game)
    requires
        sorted(g.headers@),
    ensures
        sorted(g.pgn_tags()),
        hget(g.pgn_tags(), "Result"@) == Some(g.spec_result_text()),
        hget(g.pgn_tags(), "FEN"@) == if g.custom_start() {
            Some(g.fens()[0])
        } else {
            None
        },
        hget(g.pgn_tags(), "Variant"@) == hget(g.headers@, "Variant"@),
{
    reveal_strlit("Event");
    reveal_strlit("White");
    reveal_strlit("Black");
    reveal_strlit("Result");
    reveal_strlit("FEN");
    reveal_strlit("SetUp");
    reveal_strlit("Variant");
    let rt = g.spec_result_text();
    let f0 = g.fens()[0];
    let wv = if g.mode == Mode::Computer && !g.human_white {
        "Stockfish"@
    } else {
        "White"@
    };
    let bv = if g.mode == Mode::Computer && g.human_white {
        "Stockfish"@
    } else {
        "Black"@
    };
    let h0 = g.headers@;
    let h1 = hdefault(h0, "Event"@, "Omarchy Chess"@);
    lemma_put_sorted(h0, "Event"@, "Omarchy Chess"@);
    lemma_put_get(h0, "Event"@, "Omarchy Chess"@, "Variant"@);
    let h2 = hdefault(h1, "White"@, wv);
    lemma_put_sorted(h1, "White"@, wv);
    lemma_put_get(h1, "White"@, wv, "Variant"@);
    let h3 = hdefault(h2, "Black"@, bv);
    lemma_put_sorted(h2, "Black"@, bv);
    lemma_put_get(h2, "Black"@, bv, "Variant"@);
    let h4 = hput(h3, "Result"@, rt);
    lemma_put_sorted(h3, "Result"@, rt);
    lemma_put_get(h3, "Result"@, rt, "Variant"@);
    assert(hget(h3, "Variant"@) == hget(h0, "Variant"@));
    if g.custom_start() {
        let h5 = hput(h4, "FEN"@, f0);
        lemma_put_sorted(h4, "FEN"@, f0);
        lemma_put_get(h4, "FEN"@, f0, "Result"@);
        lemma_put_get(h4, "FEN"@, f0, "Variant"@);
        lemma_put_sorted(h5, "SetUp"@, "1"@);
        lemma_put_get(h5, "SetUp"@, "1"@, "FEN"@);
        lemma_put_get(h5, "SetUp"@, "1"@, "Result"@);
        lemma_put_get(h5, "SetUp"@, "1"@, "Variant"@);
    } else {
        let h5 = hremove(h4, "FEN"@);
        lemma_remove(h4, "FEN"@);
        lemma_remove_get(h4, "FEN"@, "Result"@);
        lemma_remove_get(h4, "FEN"@, "Variant"@);
        lemma_remove(h5, "SetUp"@);
        lemma_remove_get(h5, "SetUp"@, "FEN"@);
        lemma_remove_get(h5, "SetUp"@, "Result"@);
        lemma_remove_get(h5, "SetUp"@, "Variant"@);
    }
}

proof fn lemma_result_outcome(r: Seq<char>)
    requires
        valid_result(r),
    ensures
        outcome_text(result_outcome(r)) == r,
{
    reveal_strlit("*");
    reveal_strlit("1-0");
    reveal_strlit("0-1");
    reveal_strlit("1/2-1/2");
    assert("0-1"@ != "1-0"@) by {
        assert("0-1"@[0] != "1-0"@[0]);
    }
}

/// Importing what PGN export writes gives any played game back: reading the
/// tags of its export, then for each move a text that shakmaty reads as that
/// move, then the outcome of its result, rebuilds the same positions, moves and
/// history, and the import ends with the exported result. What shakmaty returns
/// is named, not stated, so this holds provided that it reads a non-standard
/// starting FEN back as itself and each recorded UCI move as itself; and
/// provided that a `Variant` tag of the game names standard chess. A game from
/// the standard position with other move counters is left out: its export
/// writes no FEN tag, so the import starts from the counters of the standard FEN.
pub proof fn lemma_pgn_round_trip(g: Game, sans: Seq<Seq<char>>)
    requires
        g.lawful(),
        sorted(g.headers@),
        g.custom_start() ==> fen_position(g.fens()[0]) == Ok::<Seq<char>, Seq<char>>(g.fens()[0]),
        !g.custom_start() ==> g.fens()[0] == start_fen(),
        sans.len() == g.moves@.len(),
        forall|i: int|
            0 <= i < sans.len() ==> fen_san_move(g.fens()[i], #[trigger] sans[i]) == Ok::<
                Seq<char>,
                Seq<char>,
            >(g.moves@[i]@),
        forall|i: int|
            0 <= i < g.moves@.len() ==> fen_uci_move(g.fens()[i], #[trigger] g.moves@[i]@) == Some(
                Some(g.moves@[i]@),
            ),
        match hget(g.headers@, "Variant"@) {
            Some(v) => standard_variant(v),
            None => true,
        },
    ensures
        ({
            let s = import_events(import_start(), pgn_events(g, sans));
            &&& s.fens == g.fens()
            &&& s.moves == vec_view(g.moves@)
            &&& s.notes == vec_view(g.notation@)
            &&& import_end(s) == Ok::<Seq<char>, Seq<char>>(g.spec_result_text())
        }),
{
    let tags = g.pgn_tags();
    let rt = g.spec_result_text();
    let f0 = g.fens()[0];
    lemma_pgn_tags(g);
    assert forall|i: int| 0 <= i < tags.len() && #[trigger] tags[i].0 == "FEN"@ implies fen_position(
        tags[i].1,
    ) is Ok by {
        lemma_get_at(tags, i);
    }
    assert forall|i: int| 0 <= i < tags.len() && #[trigger] tags[i].0 == "Variant"@ implies standard_variant(
        tags[i].1,
    ) by {
        lemma_get_at(tags, i);
    }
    let te = tag_events(tags);
    lemma_tags_fold(tags, tags.len() as int);
    assert(te.take(tags.len() as int) =~= te);
    assert(tags.take(tags.len() as int) =~= tags);
    let s1 = tags_state(tags);
    assert(tags.len() > 0);
    assert(s1.fens =~= seq![f0]);
    let ms = move_events(sans);
    lemma_moves_fold(g, sans, s1, sans.len() as int);
    assert(ms.take(sans.len() as int) =~= ms);
    assert(g.fens().take(sans.len() as int + 1) =~= g.fens());
    assert(vec_view(g.moves@).take(sans.len() as int) =~= vec_view(g.moves@));
    assert(vec_view(g.notation@).take(sans.len() as int) =~= vec_view(g.notation@));
    let e = seq![PgnEvent::End(result_outcome(rt))];
    lemma_events_append(import_start(), te, ms);
    lemma_events_append(import_start(), te + ms, e);
    assert(e.drop_last() =~= Seq::<PgnEvent>::empty());
    reveal_strlit("*");
    assert(valid_result(rt));
    lemma_result_outcome(rt);
    assert(!contradicts(automatic_result(g.fens()), rt));
    assert(import_events(import_start(), te) == s1);
    let s2 = import_events(import_start(), te + ms);
    assert(s2 == import_events(s1, ms));
    assert(pgn_events(g, sans) == te + ms + e);
    let s3 = import_events(import_start(), pgn_events(g, sans));
    assert(s3 == import_events(s2, e));
    assert(import_events(s2, e) == event_step(import_events(s2, e.drop_last()), e.last()));
    assert(s3 == outcome_step(s2, result_outcome(rt)));
}

/// A `Variant` tag of `Standard`, `Chess` or `Normal` sets no error; any other
/// value refuses the import as not standard chess. Either way the tag changes
/// neither the position nor the moves.
pub proof fn lemma_variant_tag(s: ImportState, v: Seq<char>)
    ensures
        header_step(s, "Variant"@, "Standard"@).error == s.error,
        header_step(s, "Variant"@, "Chess"@).error == s.error,
        header_step(s, "Variant"@, "Normal"@).error == s.error,
        v != "Standard"@ && v != "Chess"@ && v != "Normal"@ ==> header_step(s, "Variant"@, v).error
            == Some("Only standard chess is supported."@),
        header_step(s, "Variant"@, v).fens == s.fens,
        header_step(s, "Variant"@, v).moves == s.moves,
{
    reveal_strlit("FEN");
    reveal_strlit("Variant");
    assert("Variant"@ != "FEN"@) by {
        assert("Variant"@.len() != "FEN"@.len());
    }
}

/// Export keeps the game's own tags: every tag other than `Result`, `FEN` and
/// `SetUp` that the game has is written with the game's value, and `Event`,
/// `White` and `Black` get their defaults only when the game lacks them.
pub proof fn lemma_pgn_keeps_tags(g: Game, k: Seq<char>)
    ensures
        k != "Result"@ && k != "FEN"@ && k != "SetUp"@ && hget(g.headers@, k) is Some ==> hget(
            g.pgn_tags(),
            k,
        ) == hget(g.headers@, k),
        hget(g.headers@, "Event"@) is None ==> hget(g.pgn_tags(), "Event"@) == Some("Omarchy Chess"@),
        hget(g.headers@, "White"@) is None ==> hget(g.pgn_tags(), "White"@) == Some(
            if g.mode == Mode::Computer && !g.human_white {
                "Stockfish"@
            } else {
                "White"@
            },
        ),
        hget(g.headers@, "Black"@) is None ==> hget(g.pgn_tags(), "Black"@) == Some(
            if g.mode == Mode::Computer && g.human_white {
                "Stockfish"@
            } else {
                "Black"@
            },
        ),
{
    reveal_strlit("Event");
    reveal_strlit("White");
    reveal_strlit("Black");
    reveal_strlit("Result");
    reveal_strlit("FEN");
    reveal_strlit("SetUp");
    let rt = g.spec_result_text();
    let f0 = g.fens()[0];
    let wv = if g.mode == Mode::Computer && !g.human_white {
        "Stockfish"@
    } else {
        "White"@
    };
    let bv = if g.mode == Mode::Computer && g.human_white {
        "Stockfish"@
    } else {
        "Black"@
    };
    let h0 = g.headers@;
    let h1 = hdefault(h0, "Event"@, "Omarchy Chess"@);
    let h2 = hdefault(h1, "White"@, wv);
    let h3 = hdefault(h2, "Black"@, bv);
    let h4 = hput(h3, "Result"@, rt);
    assert("Event"@ != "White"@) by {
        assert("Event"@[0] != "White"@[0]);
    }
    assert("Event"@ != "Black"@) by {
        assert("Event"@[0] != "Black"@[0]);
    }
    assert("White"@ != "Black"@) by {
        assert("White"@[0] != "Black"@[0]);
    }
    assert("Event"@ != "SetUp"@) by {
        assert("Event"@[0] != "SetUp"@[0]);
    }
    assert("White"@ != "SetUp"@) by {
        assert("White"@[0] != "SetUp"@[0]);
    }
    assert("Black"@ != "SetUp"@) by {
        assert("Black"@[0] != "SetUp"@[0]);
    }
    let ks = seq![k, "Event"@, "White"@, "Black"@];
    assert forall|i: int| 0 <= i < 4 implies {
        let q = #[trigger] ks[i];
        &&& hget(h1, q) == if q == "Event"@ && hget(h0, q) is None {
            Some("Omarchy Chess"@)
        } else {
            hget(h0, q)
        }
        &&& hget(h2, q) == if q == "White"@ && hget(h1, q) is None {
            Some(wv)
        } else {
            hget(h1, q)
        }
        &&& hget(h3, q) == if q == "Black"@ && hget(h2, q) is None {
            Some(bv)
        } else {
            hget(h2, q)
        }
        &&& q != "Result"@ ==> hget(h4, q) == hget(h3, q)
        &&& q != "Result"@ && q != "FEN"@ && q != "SetUp"@ ==> hget(g.pgn_tags(), q) == hget(h4, q)
    } by {
        let q = ks[i];
        lemma_put_get(h0, "Event"@, "Omarchy Chess"@, q);
        lemma_put_get(h1, "White"@, wv, q);
        lemma_put_get(h2, "Black"@, bv, q);
        lemma_put_get(h3, "Result"@, rt, q);
        if g.custom_start() {
            let h5 = hput(h4, "FEN"@, f0);
            lemma_put_get(h4, "FEN"@, f0, q);
            lemma_put_get(h5, "SetUp"@, "1"@, q);
        } else {
            let h5 = hremove(h4, "FEN"@);
            if q != "FEN"@ {
                lemma_remove_get(h4, "FEN"@, q);
            }
            if q != "SetUp"@ {
                lemma_remove_get(h5, "SetUp"@, q);
            }
        }
    }
    assert(ks[0] == k);
    assert(ks[1] == "Event"@);
    assert(ks[2] == "White"@);
    assert(ks[3] == "Black"@);
}

/// Whether `res` names a result other than the one the rules impose.
pub open spec fn contradicts(auto: Option<(Seq<char>, Seq<char>)>, res: Seq<char>) -> bool {
    match auto {
        Some((actual, _)) => res != "*"@ && res != actual,
        None => false,
    }
}

pub open spec fn opt_string_view(o: Option<String>) -> Option<Seq<char>> {
    crate::chess::opt_view(o)
}

} // verus!
