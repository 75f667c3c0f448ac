//! A game of chess: its positions, moves, notation, result, draw rules,
//! takebacks and PGN export.
use vstd::prelude::*;
use vstd::string::StringExecFns;
use crate::chess::{
    fen_after, fen_san_move, start_fen, res_view, fen_check, fen_checkmate, fen_fullmoves, fen_halfmoves, fen_insufficient,
    fen_legal_moves, fen_san, fen_stalemate, fen_uci_move, fen_white_to_move, Position,
};
use crate::headers::{hdefault, hput, hremove, Headers};
use crate::pgn::{contradicts, valid_result};
use crate::text::{
    chars_eq, chars_of, decimal, escape, first_words, join, join_prefix, push_decimal,
    push_escaped, split_words, str_eq, string_of, trim, trim_chars, words,
};

verus! {

/// Largest PGN text that is imported, in bytes.
pub const MAX_PGN: usize = 1_000_000;

/// Most plies a game records.
pub const MAX_PLIES: usize = 2048;

/// Who plays the other side: the engine or a second person at the same board.
#[derive(Clone, Copy, Debug, PartialEq, Eq, Structural)]
pub enum Mode {
    Computer,
    Local,
}

impl Default for Mode {
    fn default() -> (r: Mode)
        ensures
            r == Mode::Computer,
    {
        Mode::Computer
    }
}

/// Engine strength presets.
#[derive(Clone, Copy, Debug, PartialEq, Eq, Structural)]
pub enum Difficulty {
    Gentle,
    Casual,
    Club,
    Strong,
}

impl Default for Difficulty {
    fn default() -> (r: Difficulty)
        ensures
            r == Difficulty::Casual,
    {
        Difficulty::Casual
    }
}

impl Difficulty {
    /// Every preset, from weakest to strongest.
    pub const ALL: [Difficulty; 4] = [
        Difficulty::Gentle,
        Difficulty::Casual,
        Difficulty::Club,
        Difficulty::Strong,
    ];

    /// Skill level and move time in milliseconds of each preset.
    pub open spec fn spec_settings(self) -> (u8, u64) {
        match self {
            Difficulty::Gentle => (0, 150),
            Difficulty::Casual => (5, 300),
            Difficulty::Club => (10, 600),
            Difficulty::Strong => (20, 1000),
        }
    }

    pub fn settings(self) -> (r: (u8, u64))
        ensures
            r == self.spec_settings(),
    {
        match self {
            Difficulty::Gentle => (0, 150),
            Difficulty::Casual => (5, 300),
            Difficulty::Club => (10, 600),
            Difficulty::Strong => (20, 1000),
        }
    }

    pub open spec fn spec_label(self) -> Seq<char> {
        match self {
            Difficulty::Gentle => "Gentle"@,
            Difficulty::Casual => "Casual"@,
            Difficulty::Club => "Club"@,
            Difficulty::Strong => "Strong"@,
        }
    }

    /// The name shown for the preset.
    pub fn label(self) -> (r: &'static str)
        ensures
            r@ == self.spec_label(),
    {
        match self {
            Difficulty::Gentle => "Gentle",
            Difficulty::Casual => "Casual",
            Difficulty::Club => "Club",
            Difficulty::Strong => "Strong",
        }
    }
}

/// The FEN of a position.
pub fn fen(p: &Position) -> (r: String)
    ensures
        r@ == p@,
{
    String::from_str(p.fen())
}

/// The part of a FEN that decides repetition: placement, side to move,
/// castling rights and en passant square.
pub open spec fn position_key(fen: Seq<char>) -> Seq<char> {
    join(first_words(fen, 4), " "@)
}

/// How many of `fens` repeat the position `fen`.
pub open spec fn repetitions(fens: Seq<Seq<char>>, fen: Seq<char>) -> nat
    decreases fens.len(),
{
    if fens.len() == 0 {
        0
    } else {
        repetitions(fens.drop_last(), fen) + if position_key(fens.last()) == position_key(fen) {
            1nat
        } else {
            0nat
        }
    }
}

/// The result that the rules impose on the last of `fens`, with its reason.
pub open spec fn automatic_result(fens: Seq<Seq<char>>) -> Option<(Seq<char>, Seq<char>)> {
    let p = fens.last();
    if fen_checkmate(p) {
        Some((if fen_white_to_move(p) { "0-1"@ } else { "1-0"@ }, "Checkmate"@))
    } else if fen_stalemate(p) {
        Some(("1/2-1/2"@, "Stalemate"@))
    } else if fen_insufficient(p) {
        Some(("1/2-1/2"@, "Insufficient material"@))
    } else if fen_halfmoves(p) >= 150 {
        Some(("1/2-1/2"@, "Seventy-five moves"@))
    } else if repetitions(fens, p) >= 5 {
        Some(("1/2-1/2"@, "Fivefold repetition"@))
    } else {
        None
    }
}

/// The history line of a move: its move number, `.` for White or `…` for
/// Black, two spaces and its SAN.
pub open spec fn note_text(fen: Seq<char>, san: Seq<char>) -> Seq<char> {
    decimal(fen_fullmoves(fen) as nat) + (if fen_white_to_move(fen) {
        "."@
    } else {
        "\u{2026}"@
    }) + "  "@ + san
}

/// Whether `next` follows `fen` by the move `uci`, recorded as `note`.
pub open spec fn played(fen: Seq<char>, uci: Seq<char>, next: Seq<char>, note: Seq<char>) -> bool {
    &&& fen_after(fen, uci) == Some(next)
    &&& fen_san(fen, uci) is Some
    &&& note == note_text(fen, fen_san(fen, uci)->0)
}

/// What playing the text `m` in `fen` gives: the move in standard UCI, the next
/// position and the SAN; `None` unless `m` is a legal UCI move there.
pub open spec fn step(fen: Seq<char>, m: Seq<char>) -> Option<(Seq<char>, Seq<char>, Seq<char>)> {
    match fen_uci_move(fen, m) {
        Some(Some(c)) => match (fen_after(fen, c), fen_san(fen, c)) {
            (Some(n), Some(s)) => Some((c, n, s)),
            _ => None,
        },
        _ => None,
    }
}

/// Whether the move `uci` from the last of `fens` lets the mover claim a draw:
/// it does not mate, and reaches the fifty-move count or a third occurrence.
pub open spec fn claim_after(fens: Seq<Seq<char>>, uci: Seq<char>) -> bool {
    match fen_after(fens.last(), uci) {
        Some(n) => !fen_checkmate(n) && (fen_halfmoves(n) >= 100 || repetitions(fens, n) >= 2),
        None => false,
    }
}

/// The PGN movetext of one move: the move number before White's moves and
/// before a first move by Black, the SAN and a space.
pub open spec fn move_text(i: int, fen: Seq<char>, san: Seq<char>) -> Seq<char> {
    (if fen_white_to_move(fen) {
        decimal(fen_fullmoves(fen) as nat) + ". "@
    } else if i == 0 {
        decimal(fen_fullmoves(fen) as nat) + "... "@
    } else {
        seq![]
    }) + san + " "@
}

/// The movetext of the first `n` moves.
pub open spec fn movetext(fens: Seq<Seq<char>>, moves: Seq<Seq<char>>, n: nat) -> Seq<char>
    decreases n,
{
    if n == 0 {
        seq![]
    } else {
        movetext(fens, moves, (n - 1) as nat) + move_text(
            n - 1,
            fens[n - 1],
            fen_san(fens[n - 1], moves[n - 1])->0,
        )
    }
}

/// The PGN tag lines of the first `n` tags.
pub open spec fn tag_lines(hs: Seq<(Seq<char>, Seq<char>)>, n: nat) -> Seq<char>
    decreases n,
{
    if n == 0 {
        seq![]
    } else {
        tag_lines(hs, (n - 1) as nat) + "["@ + hs[n - 1].0 + " \""@ + escape(hs[n - 1].1) + "\"]\n"@
    }
}

/// What `parse_move` reads from `text` in `fen`: SAN first, then UCI, both on
/// the text without surrounding whitespace.
pub open spec fn read_move(fen: Seq<char>, text: Seq<char>) -> Result<Seq<char>, Seq<char>> {
    let t = trim(text);
    match fen_san_move(fen, t) {
        Ok(c) => Ok(c),
        Err(_) => match fen_uci_move(fen, t) {
            None => Err("Move not recognised. Try e4, Nf3, O-O or e7e8n."@),
            Some(None) => Err("That move is not legal."@),
            Some(Some(c)) => Ok(c),
        },
    }
}

pub open spec fn illegal_move_message() -> Seq<char> {
    "That move is not legal in this position."@
}

pub open spec fn too_long_message() -> Seq<char> {
    "This preview supports at most 2048 plies. Export this game before starting another."@
}

pub open spec fn no_draw_message() -> Seq<char> {
    "No draw can be claimed here."@
}

pub open spec fn vec_view(v: Seq<String>) -> Seq<Seq<char>> {
    v.map_values(|s: String| s@)
}

/// A game: the positions from the start, the moves between them in standard
/// UCI, the history lines, the players and the result.
#[derive(Debug)]
pub struct Game {
    pub positions: Vec<Position>,
    pub moves: Vec<String>,
    pub notation: Vec<String>,
    pub mode: Mode,
    pub human_white: bool,
    pub difficulty: Difficulty,
    pub result: String,
    pub ending: String,
    pub headers: Headers,
}

impl Game {
    /// The FENs of the positions.
    pub open spec fn fens(&self) -> Seq<Seq<char>> {
        self.positions@.map_values(|p: Position| p@)
    }

    pub open spec fn current(&self) -> Seq<char> {
        self.fens().last()
    }

    /// Each move leads from its position to the next and is noted in the history.
    pub open spec fn wf(&self) -> bool {
        &&& self.positions@.len() == self.moves@.len() + 1
        &&& self.notation@.len() == self.moves@.len()
        &&& forall|i: int|
            0 <= i < self.moves@.len() ==> #[trigger] played(
                self.fens()[i],
                self.moves@[i]@,
                self.fens()[i + 1],
                self.notation@[i]@,
            )
    }

    pub open spec fn spec_automatic_result(&self) -> Option<(Seq<char>, Seq<char>)> {
        automatic_result(self.fens())
    }

    pub open spec fn spec_finished(&self) -> bool {
        self.result@ != "*"@ || self.spec_automatic_result() is Some
    }

    pub open spec fn spec_result_text(&self) -> Seq<char> {
        if self.result@ != "*"@ {
            self.result@
        } else {
            match self.spec_automatic_result() {
                Some((r, _)) => r,
                None => "*"@,
            }
        }
    }

    pub open spec fn spec_human_turn(&self) -> bool {
        !self.spec_finished() && (self.mode == Mode::Local || fen_white_to_move(self.current())
            == self.human_white)
    }

    pub open spec fn spec_status(&self) -> Seq<char> {
        if self.result@ != "*"@ {
            self.ending@ + " \u{b7} "@ + self.result@
        } else {
            match self.spec_automatic_result() {
                Some((r, e)) => e + " \u{b7} "@ + r,
                None => (if fen_white_to_move(self.current()) {
                    "White"@
                } else {
                    "Black"@
                }) + " to move"@ + (if fen_check(self.current()) {
                    " \u{b7} Check"@
                } else {
                    seq![]
                }),
            }
        }
    }

    pub open spec fn spec_can_claim_draw(&self) -> bool {
        let p = self.current();
        &&& !self.spec_finished()
        &&& (fen_halfmoves(p) >= 100 || repetitions(self.fens(), p) >= 3 || exists|j: int|
            0 <= j < fen_legal_moves(p).len() && claim_after(
                self.fens(),
                #[trigger] fen_legal_moves(p)[j],
            ))
    }

    pub open spec fn spec_can_takeback(&self) -> bool {
        self.moves@.len() > 0 && !(self.mode == Mode::Computer && !self.human_white
            && self.moves@.len() == 1)
    }

    /// The game could have been played move by move: it is well formed, within
    /// the ply limit, no move was made once the rules had decided the game, and
    /// its result is one of the four and not contradicted by the final position.
    pub open spec fn lawful(&self) -> bool {
        &&& self.wf()
        &&& self.moves@.len() <= MAX_PLIES
        &&& forall|i: int|
            0 <= i < self.moves@.len() ==> automatic_result(#[trigger] self.fens().take(i + 1)) is None
        &&& valid_result(self.result@)
        &&& !contradicts(automatic_result(self.fens()), self.result@)
    }

    /// The fields that moves leave alone are those of `other`.
    pub open spec fn same_setup(&self, other: &Game) -> bool {
        &&& self.mode == other.mode
        &&& self.human_white == other.human_white
        &&& self.difficulty == other.difficulty
        &&& self.headers@ == other.headers@
    }

    /// How many plies a takeback removes: none when it is refused, else one,
    /// and one more when that hands the move back to the engine.
    pub open spec fn takeback_plies(&self) -> nat {
        if !self.spec_can_takeback() {
            0
        } else if self.mode == Mode::Computer && fen_white_to_move(
            self.fens()[self.moves@.len() - 1],
        ) != self.human_white && self.moves@.len() > 1 {
            2
        } else {
            1
        }
    }

    /// What a successful `play` of the text `m` makes of this game: the move in
    /// standard UCI, the next position and the history line are appended.
    pub open spec fn play_outcome(&self, m: Seq<char>, next: &Game) -> bool {
        let (c, n, san) = step(self.current(), m)->0;
        &&& !self.spec_finished()
        &&& step(self.current(), m) is Some
        &&& self.moves@.len() < MAX_PLIES
        &&& next.fens() == self.fens().push(n)
        &&& vec_view(next.moves@) == vec_view(self.moves@).push(c)
        &&& vec_view(next.notation@) == vec_view(self.notation@).push(note_text(self.current(), san))
        &&& next.result@ == self.result@
        &&& next.ending@ == self.ending@
        &&& next.same_setup(self)
    }

    /// What `takeback` makes of this game: unchanged when refused, else the
    /// last `takeback_plies` plies are removed and the result cleared.
    pub open spec fn takeback_outcome(&self, next: &Game) -> bool {
        &&& self.takeback_plies() == 0 ==> *next == *self
        &&& self.takeback_plies() > 0 ==> {
            let n = self.moves@.len() - self.takeback_plies();
            &&& next.fens() == self.fens().take(n + 1)
            &&& next.moves@ == self.moves@.take(n)
            &&& next.notation@ == self.notation@.take(n)
            &&& next.result@ == "*"@
            &&& next.ending@ == Seq::<char>::empty()
            &&& next.same_setup(self)
        }
    }

    /// Whether the game starts elsewhere than the standard position: its
    /// placement, side to move, castling rights or en passant square differ
    /// (the move counters do not count).
    pub open spec fn custom_start(&self) -> bool {
        position_key(self.fens()[0]) != position_key(start_fen())
    }

    /// The tags that PGN export writes.
    pub open spec fn pgn_tags(&self) -> Seq<(Seq<char>, Seq<char>)> {
        let h1 = hdefault(self.headers@, "Event"@, "Omarchy Chess"@);
        let h2 = hdefault(
            h1,
            "White"@,
            if self.mode == Mode::Computer && !self.human_white {
                "Stockfish"@
            } else {
                "White"@
            },
        );
        let h3 = hdefault(
            h2,
            "Black"@,
            if self.mode == Mode::Computer && self.human_white {
                "Stockfish"@
            } else {
                "Black"@
            },
        );
        let h4 = hput(h3, "Result"@, self.spec_result_text());
        if self.custom_start() {
            hput(hput(h4, "FEN"@, self.fens()[0]), "SetUp"@, "1"@)
        } else {
            hremove(hremove(h4, "FEN"@), "SetUp"@)
        }
    }

    /// The PGN text of the game.
    pub open spec fn spec_pgn(&self) -> Seq<char> {
        let tags = self.pgn_tags();
        tag_lines(tags, tags.len()) + "\n"@ + movetext(
            self.fens(),
            vec_view(self.moves@),
            self.moves@.len(),
        ) + self.spec_result_text() + "\n"@
    }

    /// The UCI `position` command of the game.
    pub open spec fn spec_uci_position(&self) -> Seq<char> {
        "position fen "@ + self.fens()[0] + if self.moves@.len() == 0 {
            seq![]
        } else {
            " moves "@ + join(vec_view(self.moves@), " "@)
        }
    }

    /// A game from `initial`, against the engine, the person playing White.
    pub fn new(initial: Position) -> (r: Game)
        ensures
            r.wf(),
            r.lawful(),
            r.fens() == seq![initial@],
            r.moves@.len() == 0,
            r.mode == Mode::Computer,
            r.human_white,
            r.difficulty == Difficulty::Casual,
            r.result@ == "*"@,
            r.ending@ == Seq::<char>::empty(),
            r.headers@ == Seq::<(Seq<char>, Seq<char>)>::empty(),
    {
        let mut positions = Vec::new();
        positions.push(initial);
        let r = Game {
            positions,
            moves: Vec::new(),
            notation: Vec::new(),
            mode: Mode::Computer,
            human_white: true,
            difficulty: Difficulty::Casual,
            result: String::from_str("*"),
            ending: String::new(),
            headers: Headers::new(),
        };
        assert(r.fens() =~= seq![initial@]);
        proof {
            reveal_strlit("*");
        }
        r
    }

    /// Sets a PGN tag of the game.
    pub fn set_header(&mut self, key: &str, value: &str)
        requires
            old(self).wf(),
        ensures
            final(self).wf(),
            old(self).lawful() ==> final(self).lawful(),
            final(self).headers@ == crate::headers::hput(old(self).headers@, key@, value@),
            final(self).fens() == old(self).fens(),
            final(self).moves == old(self).moves,
            final(self).notation == old(self).notation,
            final(self).mode == old(self).mode,
            final(self).human_white == old(self).human_white,
            final(self).difficulty == old(self).difficulty,
            final(self).result == old(self).result,
            final(self).ending == old(self).ending,
    {
        let ghost g0 = *self;
        self.headers.set(key, value);
        assert(self.fens() == g0.fens());
    }

    /// Starts the game again from `start`, without moves.
    pub fn restart(&mut self, start: Position)
        ensures
            final(self).wf(),
            final(self).fens() == seq![start@],
            final(self).moves@.len() == 0,
            final(self).headers@ == old(self).headers@,
            final(self).mode == old(self).mode,
            final(self).human_white == old(self).human_white,
            final(self).difficulty == old(self).difficulty,
            final(self).result == old(self).result,
            final(self).ending == old(self).ending,
    {
        let mut positions = Vec::new();
        positions.push(start);
        self.positions = positions;
        self.moves = Vec::new();
        self.notation = Vec::new();
        assert(self.fens() =~= seq![start@]);
    }

    /// The current position.
    pub fn position(&self) -> (r: &Position)
        requires
            self.wf(),
        ensures
            r@ == self.current(),
    {
        &self.positions[self.positions.len() - 1]
    }

    /// The FEN of the current position.
    pub fn fen(&self) -> (r: String)
        requires
            self.wf(),
        ensures
            r@ == self.current(),
    {
        String::from_str(self.position().fen())
    }

    /// The repetition key of a FEN.
    fn key(fen: &str) -> (r: Vec<char>)
        ensures
            r@ == position_key(fen@),
    {
        let cs = chars_of(fen);
        let ws = split_words(cs.as_slice());
        let n: usize = if ws.len() <= 4 { ws.len() } else { 4 };
        let mut sep: Vec<char> = Vec::new();
        sep.push(' ');
        let r = join_prefix(&ws, n, sep.as_slice());
        proof {
            let w = words(fen@);
            assert(ws@.map_values(|v: Vec<char>| v@) =~= w);
            assert(ws@.take(n as int).map_values(|v: Vec<char>| v@) =~= first_words(fen@, 4));
            assert(sep@ =~= " "@) by {
                reveal_strlit(" ");
            }
        }
        r
    }

    /// How many positions of the game repeat `p`.
    pub fn repetitions(&self, p: &Position) -> (r: usize)
        requires
            self.wf(),
        ensures
            r == repetitions(self.fens(), p@),
    {
        let target = Self::key(p.fen());
        let mut count: usize = 0;
        let ghost fens = self.fens();
        for i in 0..self.positions.len()
            invariant
                fens == self.fens(),
                fens.len() == self.positions@.len(),
                target@ == position_key(p@),
                count == repetitions(fens.take(i as int), p@),
                count <= i,
        {
            let k = Self::key(self.positions[i].fen());
            assert(fens.take(i + 1).drop_last() == fens.take(i as int));
            assert(fens[i as int] == self.positions@[i as int]@);
            if chars_eq(k.as_slice(), target.as_slice()) {
                count = count + 1;
            }
        }
        assert(fens.take(self.positions.len() as int) == fens);
        count
    }

    /// The result that the rules impose on the current position, with its reason.
    pub fn automatic_result(&self) -> (r: Option<(&'static str, &'static str)>)
        requires
            self.wf(),
        ensures
            match r {
                Some((a, b)) => self.spec_automatic_result() == Some((a@, b@)),
                None => self.spec_automatic_result() is None,
            },
    {
        let p = self.position();
        if p.is_checkmate() {
            return Some(
                (
                    if p.white_to_move() {
                        "0-1"
                    } else {
                        "1-0"
                    },
                    "Checkmate",
                ),
            );
        }
        if p.is_stalemate() {
            return Some(("1/2-1/2", "Stalemate"));
        }
        if p.is_insufficient_material() {
            return Some(("1/2-1/2", "Insufficient material"));
        }
        if p.halfmoves() >= 150 {
            return Some(("1/2-1/2", "Seventy-five moves"));
        }
        if self.repetitions(p) >= 5 {
            return Some(("1/2-1/2", "Fivefold repetition"));
        }
        None
    }

    /// Whether the game has a result, declared or imposed by the rules.
    pub fn finished(&self) -> (r: bool)
        requires
            self.wf(),
        ensures
            r == self.spec_finished(),
    {
        !str_eq(self.result.as_str(), "*") || self.automatic_result().is_some()
    }

    /// The declared result, else the imposed one, else `*`.
    pub fn result_text(&self) -> (r: String)
        requires
            self.wf(),
        ensures
            r@ == self.spec_result_text(),
    {
        if !str_eq(self.result.as_str(), "*") {
            self.result.clone()
        } else {
            match self.automatic_result() {
                Some((res, _)) => String::from_str(res),
                None => String::from_str("*"),
            }
        }
    }

    /// Whether the person at the board is to move.
    pub fn human_turn(&self) -> (r: bool)
        requires
            self.wf(),
        ensures
            r == self.spec_human_turn(),
    {
        !self.finished() && (self.mode == Mode::Local || self.position().white_to_move()
            == self.human_white)
    }

    /// The status line: the result with its reason, or who is to move and check.
    pub fn status(&self) -> (r: String)
        requires
            self.wf(),
        ensures
            r@ == self.spec_status(),
    {
        if !str_eq(self.result.as_str(), "*") {
            let mut s = self.ending.clone();
            s.append(" \u{b7} ");
            s.append(self.result.as_str());
            return s;
        }
        if let Some((res, ending)) = self.automatic_result() {
            let mut s = String::from_str(ending);
            s.append(" \u{b7} ");
            s.append(res);
            return s;
        }
        let p = self.position();
        let mut s = String::from_str(
            if p.white_to_move() {
                "White"
            } else {
                "Black"
            },
        );
        s.append(" to move");
        if p.is_check() {
            s.append(" \u{b7} Check");
        } else {
            assert(s@ + seq![] =~= s@);
        }
        s
    }

    /// Whether the side to move may claim a draw: by the fifty-move count, a
    /// third occurrence, or a move that reaches either without mating.
    pub fn can_claim_draw(&self) -> (r: bool)
        requires
            self.wf(),
        ensures
            r == self.spec_can_claim_draw(),
    {
        if self.finished() {
            return false;
        }
        let p = self.position();
        if p.halfmoves() >= 100 || self.repetitions(p) >= 3 {
            return true;
        }
        let legal = p.legal_moves();
        let ghost lv = fen_legal_moves(p@);
        assert(legal@.map_values(|s: String| s@) == lv);
        for j in 0..legal.len()
            invariant
                self.wf(),
                p@ == self.current(),
                legal@.map_values(|s: String| s@) == lv,
                lv == fen_legal_moves(self.current()),
                !self.spec_finished(),
                forall|k: int| 0 <= k < j ==> !claim_after(self.fens(), #[trigger] lv[k]),
        {
            assert(lv[j as int] == legal@[j as int]@);
            match p.successor(legal[j].as_str()) {
                Some(n) => {
                    if !n.is_checkmate() && (n.halfmoves() >= 100 || self.repetitions(&n)
                        >= 2) {
                        assert(claim_after(self.fens(), lv[j as int]));
                        return true;
                    }
                },
                None => {},
            }
        }
        false
    }

    /// Records a claimed draw; refused unless one can be claimed.
    pub fn claim_draw(&mut self) -> (r: Result<(), String>)
        requires
            old(self).wf(),
        ensures
            final(self).wf(),
            old(self).lawful() ==> final(self).lawful(),
            match r {
                Ok(()) => {
                    &&& old(self).spec_can_claim_draw()
                    &&& final(self).result@ == "1/2-1/2"@
                    &&& final(self).ending@ == "Draw claimed"@
                    &&& final(self).spec_finished()
                    &&& final(self).fens() == old(self).fens()
                    &&& final(self).moves@ == old(self).moves@
                    &&& final(self).notation@ == old(self).notation@
                    &&& final(self).same_setup(old(self))
                },
                Err(e) => {
                    &&& !old(self).spec_can_claim_draw()
                    &&& e@ == no_draw_message()
                    &&& *final(self) == *old(self)
                },
            },
    {
        if !self.can_claim_draw() {
            return Err(String::from_str("No draw can be claimed here."));
        }
        self.result = String::from_str("1/2-1/2");
        self.ending = String::from_str("Draw claimed");
        proof {
            reveal_strlit("1/2-1/2");
            reveal_strlit("*");
            assert(self.result@.len() == 7);
            assert("*"@.len() == 1);
        }
        Ok(())
    }

    /// Resigns for the person at the board against the engine, or for the side
    /// to move between two people; nothing once the game is over.
    pub fn resign(&mut self)
        requires
            old(self).wf(),
        ensures
            final(self).wf(),
            old(self).lawful() ==> final(self).lawful(),
            final(self).fens() == old(self).fens(),
            final(self).moves@ == old(self).moves@,
            final(self).notation@ == old(self).notation@,
            final(self).same_setup(old(self)),
            final(self).spec_finished(),
            old(self).spec_finished() ==> *final(self) == *old(self),
            !old(self).spec_finished() ==> {
                let white = if old(self).mode == Mode::Computer {
                    old(self).human_white
                } else {
                    fen_white_to_move(old(self).current())
                };
                &&& final(self).result@ == (if white {
                    "0-1"@
                } else {
                    "1-0"@
                })
                &&& final(self).ending@ == (if white {
                    "White"@
                } else {
                    "Black"@
                }) + " resigned"@
            },
    {
        if self.finished() {
            return;
        }
        let white = if self.mode == Mode::Computer {
            self.human_white
        } else {
            self.position().white_to_move()
        };
        self.result = String::from_str(
            if white {
                "0-1"
            } else {
                "1-0"
            },
        );
        let mut ending = String::from_str(
            if white {
                "White"
            } else {
                "Black"
            },
        );
        ending.append(" resigned");
        self.ending = ending;
        proof {
            reveal_strlit("0-1");
            reveal_strlit("1-0");
            reveal_strlit("*");
            assert(self.result@.len() == 3);
            assert("*"@.len() == 1);
        }
    }

    /// Plays the move written `m` in UCI: refused once the game is over, for a
    /// move that is not legal here, and beyond the ply limit.
    pub fn play(&mut self, m: &str) -> (r: Result<(), String>)
        requires
            old(self).wf(),
        ensures
            final(self).wf(),
            old(self).lawful() ==> final(self).lawful(),
            match r {
                Ok(()) => old(self).play_outcome(m@, final(self)),
                Err(e) => {
                    &&& *final(self) == *old(self)
                    &&& (old(self).spec_finished() || step(old(self).current(), m@) is None
                        || old(self).moves@.len() >= MAX_PLIES)
                    &&& e@ == if old(self).spec_finished() || step(old(self).current(), m@) is None {
                        illegal_move_message()
                    } else {
                        too_long_message()
                    }
                },
            },
    {
        let finished = self.finished();
        let p = self.position();
        let c = match p.uci_move(m) {
            Some(Some(c)) => c,
            _ => {
                return Err(String::from_str("That move is not legal in this position."));
            },
        };
        let next = p.successor(c.as_str());
        let san = p.san(c.as_str());
        if finished || next.is_none() || san.is_none() {
            return Err(String::from_str("That move is not legal in this position."));
        }
        if self.moves.len() >= MAX_PLIES {
            return Err(
                String::from_str(
                    "This preview supports at most 2048 plies. Export this game before starting another.",
                ),
            );
        }
        let next = next.unwrap();
        let san = san.unwrap();
        let mut note = String::new();
        push_decimal(&mut note, p.fullmoves() as u128);
        note.append(
            if p.white_to_move() {
                "."
            } else {
                "\u{2026}"
            },
        );
        note.append("  ");
        note.append(san.as_str());
        let ghost old_game = *self;
        let ghost f = self.current();
        self.notation.push(note);
        self.moves.push(c);
        self.positions.push(next);
        proof {
            let g = *self;
            assert(g.fens() =~= old_game.fens().push(g.positions@.last()@));
            assert(vec_view(g.moves@) =~= vec_view(old_game.moves@).push(g.moves@.last()@));
            assert(vec_view(g.notation@) =~= vec_view(old_game.notation@).push(g.notation@.last()@));
            assert forall|i: int| 0 <= i < g.moves@.len() implies #[trigger] played(
                g.fens()[i],
                g.moves@[i]@,
                g.fens()[i + 1],
                g.notation@[i]@,
            ) by {
                if i < old_game.moves@.len() {
                    assert(g.fens()[i] == old_game.fens()[i]);
                    assert(g.fens()[i + 1] == old_game.fens()[i + 1]);
                    assert(g.moves@[i] == old_game.moves@[i]);
                    assert(g.notation@[i] == old_game.notation@[i]);
                    assert(played(
                        old_game.fens()[i],
                        old_game.moves@[i]@,
                        old_game.fens()[i + 1],
                        old_game.notation@[i]@,
                    ));
                } else {
                    assert(g.fens()[i] == f);
                }
            }
            if old_game.lawful() {
                assert forall|i: int| 0 <= i < g.moves@.len() implies automatic_result(
                    #[trigger] g.fens().take(i + 1),
                ) is None by {
                    if i < old_game.moves@.len() {
                        assert(g.fens().take(i + 1) =~= old_game.fens().take(i + 1));
                    } else {
                        assert(g.fens().take(i + 1) =~= old_game.fens());
                    }
                }
            }
        }
        Ok(())
    }

    /// Reads a move written in SAN or, failing that, in UCI.
    pub fn parse_move(&self, text: &str) -> (r: Result<String, String>)
        requires
            self.wf(),
        ensures
            res_view(r) == read_move(self.current(), text@),
    {
        let p = self.position();
        let cs = chars_of(text);
        let t = string_of(trim_chars(cs.as_slice()).as_slice());
        match p.san_move(t.as_str()) {
            Ok(c) => return Ok(c),
            Err(_) => {},
        }
        match p.uci_move(t.as_str()) {
            None => Err(String::from_str("Move not recognised. Try e4, Nf3, O-O or e7e8n.")),
            Some(None) => Err(String::from_str("That move is not legal.")),
            Some(Some(c)) => Ok(c),
        }
    }

    /// Whether a takeback is allowed: a move has been played, and it is not the
    /// engine's opening move against a person playing Black.
    pub fn can_takeback(&self) -> (r: bool)
        ensures
            r == self.spec_can_takeback(),
    {
        self.moves.len() > 0 && !(self.mode == Mode::Computer && !self.human_white
            && self.moves.len() == 1)
    }

    fn pop(&mut self)
        requires
            old(self).wf(),
            old(self).moves@.len() > 0,
        ensures
            final(self).wf(),
            final(self).fens() == old(self).fens().drop_last(),
            final(self).moves@ == old(self).moves@.drop_last(),
            final(self).notation@ == old(self).notation@.drop_last(),
            final(self).result == old(self).result,
            final(self).ending == old(self).ending,
            final(self).same_setup(old(self)),
    {
        let ghost g0 = *self;
        self.moves.pop();
        self.positions.pop();
        self.notation.pop();
        proof {
            let g = *self;
            assert(g.fens() =~= g0.fens().drop_last());
            assert forall|i: int| 0 <= i < g.moves@.len() implies #[trigger] played(
                g.fens()[i],
                g.moves@[i]@,
                g.fens()[i + 1],
                g.notation@[i]@,
            ) by {
                assert(played(g0.fens()[i], g0.moves@[i]@, g0.fens()[i + 1], g0.notation@[i]@));
            }
        }
    }

    /// Takes back the last move, and the engine's reply before it when that
    /// hands the move back to the person; the result is cleared.
    pub fn takeback(&mut self)
        requires
            old(self).wf(),
        ensures
            final(self).wf(),
            old(self).lawful() ==> final(self).lawful(),
            old(self).takeback_outcome(final(self)),
    {
        if !self.can_takeback() {
            return;
        }
        let ghost g0 = *self;
        self.pop();
        if self.mode == Mode::Computer && self.position().white_to_move() != self.human_white
            && self.moves.len() > 0 {
            self.pop();
            assert(self.fens() =~= g0.fens().take(g0.moves@.len() - 1));
            assert(self.moves@ =~= g0.moves@.take(g0.moves@.len() - 2));
            assert(self.notation@ =~= g0.notation@.take(g0.moves@.len() - 2));
        } else {
            assert(self.fens() =~= g0.fens().take(g0.moves@.len() as int));
            assert(self.moves@ =~= g0.moves@.take(g0.moves@.len() - 1));
            assert(self.notation@ =~= g0.notation@.take(g0.moves@.len() - 1));
        }
        self.result = String::from_str("*");
        self.ending = String::new();
        proof {
            reveal_strlit("*");
            if g0.lawful() {
                let g = *self;
                assert forall|i: int| 0 <= i < g.moves@.len() implies automatic_result(
                    #[trigger] g.fens().take(i + 1),
                ) is None by {
                    assert(g.fens().take(i + 1) =~= g0.fens().take(i + 1));
                }
            }
        }
    }

    /// The UCI command that sets the engine up at the current position: the
    /// starting FEN and the moves since.
    pub fn uci_position(&self) -> (r: String)
        requires
            self.wf(),
        ensures
            r@ == self.spec_uci_position(),
    {
        let mut s = String::from_str("position fen ");
        s.append(self.positions[0].fen());
        let ghost mv = vec_view(self.moves@);
        if self.moves.len() > 0 {
            s.append(" moves ");
            let ghost base = s@;
            for i in 0..self.moves.len()
                invariant
                    mv == vec_view(self.moves@),
                    s@ == base + join(mv.take(i as int), " "@),
            {
                if i > 0 {
                    s.append(" ");
                }
                s.append(self.moves[i].as_str());
                assert(mv.take(i + 1).drop_last() == mv.take(i as int));
                assert(mv.take(i + 1).last() == self.moves@[i as int]@);
                assert(i == 0 ==> mv.take(i + 1) =~= seq![mv[0]]);
            }
            assert(mv.take(self.moves.len() as int) == mv);
        } else {
            assert(s@ + seq![] =~= s@);
        }
        s
    }

    /// The game in PGN: the tags (defaults for event and players, the result,
    /// and the starting FEN when it is not the standard one), the movetext and
    /// the result.
    pub fn pgn(&self) -> (r: String)
        requires
            self.wf(),
        ensures
            r@ == self.spec_pgn(),
    {
        let mut headers = self.headers.duplicate();
        headers.set_default("Event", "Omarchy Chess");
        headers.set_default(
            "White",
            if self.mode == Mode::Computer && !self.human_white {
                "Stockfish"
            } else {
                "White"
            },
        );
        headers.set_default(
            "Black",
            if self.mode == Mode::Computer && self.human_white {
                "Stockfish"
            } else {
                "Black"
            },
        );
        let result = self.result_text();
        headers.set("Result", result.as_str());
        let start = Position::start();
        let first_key = Self::key(self.positions[0].fen());
        let start_key = Self::key(start.fen());
        if !chars_eq(first_key.as_slice(), start_key.as_slice()) {
            headers.set("FEN", self.positions[0].fen());
            headers.set("SetUp", "1");
        } else {
            headers.remove("FEN");
            headers.remove("SetUp");
        }
        let ghost tags = headers@;
        assert(tags == self.pgn_tags());
        let mut out = String::new();
        let n = headers.len();
        for i in 0..n
            invariant
                n == tags.len(),
                tags == headers@,
                out@ == tag_lines(tags, i as nat),
        {
            let (k, v) = headers.pair(i);
            out.append("[");
            out.append(k);
            out.append(" \"");
            push_escaped(&mut out, v);
            out.append("\"]\n");
        }
        out.append("\n");
        let ghost base = out@;
        let ghost fens = self.fens();
        let ghost mv = vec_view(self.moves@);
        for i in 0..self.moves.len()
            invariant
                self.wf(),
                fens == self.fens(),
                mv == vec_view(self.moves@),
                out@ == base + movetext(fens, mv, i as nat),
        {
            let p = &self.positions[i];
            assert(fens[i as int] == p@);
            assert(mv[i as int] == self.moves@[i as int]@);
            assert(played(fens[i as int], mv[i as int], fens[i + 1], self.notation@[i as int]@));
            let ghost before = out@;
            if p.white_to_move() {
                push_decimal(&mut out, p.fullmoves() as u128);
                out.append(". ");
            } else if i == 0 {
                push_decimal(&mut out, p.fullmoves() as u128);
                out.append("... ");
            }
            match p.san(self.moves[i].as_str()) {
                Some(san) => out.append(san.as_str()),
                None => {},
            }
            out.append(" ");
            assert(out@ =~= before + move_text(i as int, fens[i as int], fen_san(fens[i as int], mv[i as int])->0));
        }
        out.append(result.as_str());
        out.append("\n");
        out
    }

    /// A copy of the game.
    pub fn duplicate(&self) -> (r: Game)
        ensures
            r.fens() == self.fens(),
            vec_view(r.moves@) == vec_view(self.moves@),
            vec_view(r.notation@) == vec_view(self.notation@),
            r.result@ == self.result@,
            r.ending@ == self.ending@,
            r.same_setup(self),
            self.wf() ==> r.wf(),
    {
        let mut positions: Vec<Position> = Vec::new();
        for i in 0..self.positions.len()
            invariant
                positions@.map_values(|p: Position| p@) == self.fens().take(i as int),
        {
            let ghost before = positions@;
            positions.push(self.positions[i].duplicate());
            assert(positions@.map_values(|p: Position| p@) =~= before.map_values(|p: Position| p@).push(
                self.positions@[i as int]@,
            ));
            assert(self.fens()[i as int] == self.positions@[i as int]@);
            assert(self.fens().take(i + 1) =~= self.fens().take(i as int).push(self.fens()[i as int]));
        }
        let moves = copy_strings(&self.moves);
        let notation = copy_strings(&self.notation);
        let r = Game {
            positions,
            moves,
            notation,
            mode: self.mode,
            human_white: self.human_white,
            difficulty: self.difficulty,
            result: self.result.clone(),
            ending: self.ending.clone(),
            headers: self.headers.duplicate(),
        };
        assert(self.fens().take(self.positions.len() as int) == self.fens());
        proof {
            assert(r.fens().len() == r.positions@.len());
            assert(self.fens().len() == self.positions@.len());
            assert(vec_view(r.moves@).len() == r.moves@.len());
            assert(vec_view(self.moves@).len() == self.moves@.len());
            assert(vec_view(r.notation@).len() == r.notation@.len());
            assert(vec_view(self.notation@).len() == self.notation@.len());
            if self.wf() {
                assert forall|i: int| 0 <= i < r.moves@.len() implies #[trigger] played(
                    r.fens()[i],
                    r.moves@[i]@,
                    r.fens()[i + 1],
                    r.notation@[i]@,
                ) by {
                    assert(vec_view(r.moves@).len() == r.moves@.len());
                    assert(vec_view(self.moves@).len() == self.moves@.len());
                    assert(vec_view(r.notation@).len() == r.notation@.len());
                    assert(vec_view(self.notation@).len() == self.notation@.len());
                    assert(r.moves@[i]@ == vec_view(r.moves@)[i]);
                    assert(self.moves@[i]@ == vec_view(self.moves@)[i]);
                    assert(r.notation@[i]@ == vec_view(r.notation@)[i]);
                    assert(self.notation@[i]@ == vec_view(self.notation@)[i]);
                    assert(played(self.fens()[i], self.moves@[i]@, self.fens()[i + 1], self.notation@[i]@));
                }
            }
        }
        r
    }
}

/// A copy of a list of strings.
pub fn copy_strings(v: &Vec<String>) -> (r: Vec<String>)
    ensures
        vec_view(r@) == vec_view(v@),
{
    let mut r: Vec<String> = Vec::new();
    for i in 0..v.len()
        invariant
            vec_view(r@) == vec_view(v@).take(i as int),
    {
        let ghost before = r@;
        r.push(v[i].clone());
        assert(vec_view(r@) =~= vec_view(before).push(v@[i as int]@));
        assert(vec_view(v@)[i as int] == v@[i as int]@);
        assert(vec_view(v@).take(i + 1) =~= vec_view(v@).take(i as int).push(v@[i as int]@));
    }
    assert(vec_view(v@).take(v.len() as int) == vec_view(v@));
    r
}

impl Default for Game {
    /// A game from the standard starting position.
    fn default() -> (r: Game)
        ensures
            r.wf(),
            r.lawful(),
            r.fens() == seq![start_fen()],
            r.moves@.len() == 0,
            r.mode == Mode::Computer,
            r.human_white,
            r.difficulty == Difficulty::Casual,
            r.result@ == "*"@,
            r.ending@ == Seq::<char>::empty(),
            r.headers@ == Seq::<(Seq<char>, Seq<char>)>::empty(),
    {
        Game::new(Position::start())
    }
}

/// A takeback right after a move by the side the person plays (either side
/// between two people) restores the game from before that move. The one
/// exception is the engine's side being White with no move before: the
/// person's first move as Black cannot be taken back.
pub proof fn lemma_takeback_undoes_play(g: Game, m: Seq<char>, after: Game, back: Game)
    requires
        g.wf(),
        g.mode == Mode::Local || fen_white_to_move(g.current()) == g.human_white,
        !(g.mode == Mode::Computer && !g.human_white && g.moves@.len() == 0),
        g.play_outcome(m, &after),
        after.takeback_outcome(&back),
    ensures
        back.fens() == g.fens(),
        vec_view(back.moves@) == vec_view(g.moves@),
        vec_view(back.notation@) == vec_view(g.notation@),
        back.result@ == g.result@,
        back.ending@ == Seq::<char>::empty(),
        back.same_setup(&g),
{
    let n = g.moves@.len();
    assert(vec_view(after.moves@).len() == n + 1);
    assert(after.moves@.len() == n + 1);
    assert(after.fens()[n as int] == g.current());
    assert(after.takeback_plies() == 1);
    assert(back.fens() =~= g.fens());
    assert(vec_view(after.moves@).take(n as int) =~= vec_view(g.moves@));
    assert(vec_view(back.moves@) =~= vec_view(after.moves@).take(n as int));
    assert(vec_view(after.notation@).len() == after.notation@.len());
    assert(vec_view(after.notation@).take(n as int) =~= vec_view(g.notation@));
    assert(vec_view(back.notation@) =~= vec_view(after.notation@).take(n as int));
    assert(!g.spec_finished());
}

/// The repetition count of `x` among `fens` is the number of them whose
/// placement, side to move, castling rights and en passant square are those of
/// `x`, whichever side is to move.
pub proof fn lemma_repetitions_count(fens: Seq<Seq<char>>, x: Seq<char>)
    ensures
        repetitions(fens, x) == fens.filter(|f: Seq<char>| position_key(f) == position_key(x)).len(),
    decreases fens.len(),
{
    reveal(Seq::filter);
    if fens.len() > 0 {
        lemma_repetitions_count(fens.drop_last(), x);
    }
}

/// If `idx` lists, in increasing order, positions of `fens` whose key is that
/// of `x`, the repetition count of `x` is at least their number.
proof fn lemma_repetitions_at_least(fens: Seq<Seq<char>>, x: Seq<char>, idx: Seq<int>)
    requires
        forall|a: int|
            0 <= a < idx.len() ==> 0 <= #[trigger] idx[a] < fens.len() && position_key(fens[idx[a]])
                == position_key(x),
        forall|a: int, b: int| 0 <= a < b < idx.len() ==> #[trigger] idx[a] < #[trigger] idx[b],
    ensures
        repetitions(fens, x) >= idx.len(),
    decreases fens.len(),
{
    if fens.len() == 0 {
        if idx.len() > 0 {
            assert(0 <= idx[0] < fens.len());
        }
    } else {
        let t = fens.drop_last();
        let last = fens.len() - 1;
        if idx.len() > 0 && idx[idx.len() - 1] == last {
            let r = idx.drop_last();
            assert forall|a: int| 0 <= a < r.len() implies 0 <= #[trigger] r[a] < t.len() && position_key(
                t[r[a]],
            ) == position_key(x) by {
                assert(r[a] == idx[a]);
                assert(idx[a] < idx[idx.len() - 1]);
            }
            assert forall|a: int, b: int| 0 <= a < b < r.len() implies #[trigger] r[a] < #[trigger] r[b] by {
                assert(r[a] == idx[a]);
                assert(r[b] == idx[b]);
            }
            lemma_repetitions_at_least(t, x, r);
        } else {
            assert forall|a: int| 0 <= a < idx.len() implies 0 <= #[trigger] idx[a] < t.len() && position_key(
                t[idx[a]],
            ) == position_key(x) by {
                if a < idx.len() - 1 {
                    assert(idx[a] < idx[idx.len() - 1]);
                }
            }
            lemma_repetitions_at_least(t, x, idx);
        }
    }
}

/// A game still going may be drawn by claim when its position has occurred
/// three times, or its halfmove clock has reached one hundred.
pub proof fn lemma_claim_in_place(g: Game, i1: int, i2: int, i3: int)
    requires
        g.wf(),
        !g.spec_finished(),
        fen_halfmoves(g.current()) >= 100 || (0 <= i1 < i2 < i3 < g.fens().len() && position_key(
            g.fens()[i1],
        ) == position_key(g.current()) && position_key(g.fens()[i2]) == position_key(g.current())
            && position_key(g.fens()[i3]) == position_key(g.current())),
    ensures
        g.spec_can_claim_draw(),
{
    if fen_halfmoves(g.current()) < 100 {
        lemma_repetitions_at_least(g.fens(), g.current(), seq![i1, i2, i3]);
    }
}

/// A game still going may be drawn by claim when some legal move leads,
/// without mating, to a position that already occurs twice in the game, or to
/// a halfmove clock of one hundred.
pub proof fn lemma_claim_by_move(g: Game, j: int, i1: int, i2: int)
    requires
        g.wf(),
        !g.spec_finished(),
        0 <= j < fen_legal_moves(g.current()).len(),
        fen_after(g.current(), fen_legal_moves(g.current())[j]) matches Some(n) && !fen_checkmate(n) && (
        fen_halfmoves(n) >= 100 || (0 <= i1 < i2 < g.fens().len() && position_key(g.fens()[i1])
            == position_key(n) && position_key(g.fens()[i2]) == position_key(n))),
    ensures
        g.spec_can_claim_draw(),
{
    let p = g.current();
    let m = fen_legal_moves(p)[j];
    let n = fen_after(p, m)->0;
    if fen_halfmoves(n) < 100 {
        lemma_repetitions_at_least(g.fens(), n, seq![i1, i2]);
    }
    assert(claim_after(g.fens(), fen_legal_moves(p)[j]));
}

/// A game whose current position has occurred five times ends in a draw by
/// fivefold repetition, unless the position is mate, stalemate, dead or past
/// the seventy-five-move count, which the rules decide first.
pub proof fn lemma_fivefold_ends_game(g: Game, idx: Seq<int>)
    requires
        g.wf(),
        idx.len() == 5,
        forall|a: int|
            0 <= a < 5 ==> 0 <= #[trigger] idx[a] < g.fens().len() && position_key(g.fens()[idx[a]])
                == position_key(g.current()),
        forall|a: int, b: int| 0 <= a < b < 5 ==> #[trigger] idx[a] < #[trigger] idx[b],
        !fen_checkmate(g.current()),
        !fen_stalemate(g.current()),
        !fen_insufficient(g.current()),
        fen_halfmoves(g.current()) < 150,
    ensures
        g.spec_automatic_result() == Some(("1/2-1/2"@, "Fivefold repetition"@)),
        g.spec_finished(),
        g.result@ == "*"@ ==> g.spec_status() == "Fivefold repetition"@ + " \u{b7} "@ + "1/2-1/2"@,
{
    lemma_repetitions_at_least(g.fens(), g.current(), idx);
}

} // verus!
