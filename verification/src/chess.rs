//! Positions and moves of standard chess, held as FEN and UCI text. The rules
//! themselves are shakmaty's; each call into it stands behind one trusted wrapper below.
//! "The position of `fen`" is what `Fen::from_str` and `Fen::into_position::<Chess>`
//! with standard castling set up from it; where they set up none, each name below
//! gives the fallback that its wrapper returns, stated with it.
use vstd::prelude::*;
use shakmaty::fen::Fen;
use shakmaty::san::{San, SanPlus};
use shakmaty::uci::UciMove;
use shakmaty::{CastlingMode, Chess, Color, EnPassantMode};
use shakmaty::Position as _;

verus! {

/// What shakmaty makes of `text` as a FEN: the position written back as FEN
/// (legal en passant squares only), or the text of its parse or setup error.
pub uninterp spec fn fen_position(text: Seq<char>) -> Result<Seq<char>, Seq<char>>;

/// Whether White is to move in the position of `fen` (false without a position).
pub uninterp spec fn fen_white_to_move(fen: Seq<char>) -> bool;

/// Whether the side to move is checkmated in the position of `fen` (false without one).
pub uninterp spec fn fen_checkmate(fen: Seq<char>) -> bool;

/// Whether the side to move is stalemated in the position of `fen` (false without one).
pub uninterp spec fn fen_stalemate(fen: Seq<char>) -> bool;

/// Whether neither side has mating material in the position of `fen` (false without one).
pub uninterp spec fn fen_insufficient(fen: Seq<char>) -> bool;

/// Whether the side to move is in check in the position of `fen` (false without one).
pub uninterp spec fn fen_check(fen: Seq<char>) -> bool;

/// The halfmove clock of the position of `fen` (0 without one).
pub uninterp spec fn fen_halfmoves(fen: Seq<char>) -> u32;

/// The fullmove number of the position of `fen` (1 without one).
pub uninterp spec fn fen_fullmoves(fen: Seq<char>) -> u32;

/// The legal moves of the position of `fen` in shakmaty's generation order, as
/// standard UCI (none without a position).
pub uninterp spec fn fen_legal_moves(fen: Seq<char>) -> Seq<Seq<char>>;

/// What shakmaty makes of `text` as a UCI move in the position of `fen`: `None`
/// when it is not UCI notation (or there is no position), `Some(None)` when it is
/// no legal move, else the move in standard UCI.
pub uninterp spec fn fen_uci_move(fen: Seq<char>, text: Seq<char>) -> Option<Option<Seq<char>>>;

/// What shakmaty makes of `text` as SAN in the position of `fen`: the move in
/// standard UCI, or the text of the parse error or of the illegal/ambiguous error
/// (an empty text without a position).
pub uninterp spec fn fen_san_move(fen: Seq<char>, text: Seq<char>) -> Result<Seq<char>, Seq<char>>;

/// The FEN after playing the legal UCI move `uci` in the position of `fen`; `None`
/// when `uci` is no legal move there (or there is no position).
pub uninterp spec fn fen_after(fen: Seq<char>, uci: Seq<char>) -> Option<Seq<char>>;

/// The SAN of the legal UCI move `uci` in the position of `fen`, with its check
/// or mate suffix; `None` when `uci` is no legal move there (or there is no position).
pub uninterp spec fn fen_san(fen: Seq<char>, uci: Seq<char>) -> Option<Seq<char>>;

pub open spec fn opt_view(o: Option<String>) -> Option<Seq<char>> {
    match o {
        Some(s) => Some(s@),
        None => None,
    }
}

pub open spec fn res_view(r: Result<String, String>) -> Result<Seq<char>, Seq<char>> {
    match r {
        Ok(s) => Ok(s@),
        Err(e) => Err(e@),
    }
}

/// The standard starting position in FEN.
pub open spec fn start_fen() -> Seq<char> {
    "rnbqkbnr/pppppppp/8/8/8/8/PPPPPPPP/RNBQKBNR w KQkq - 0 1"@
}

/// `Fen::from_str`, `Fen::into_position::<Chess>` with standard castling and
/// `Fen::from_position(.., EnPassantMode::Legal).to_string()`: the result is
/// named `fen_position`, errors carrying their `to_string` text.
#[verifier::external_body]
fn setup_fen(text: &str) -> (r: Result<String, String>)
    ensures
        res_view(r) == fen_position(text@),
{
    match text.parse::<Fen>() {
        Err(e) => Err(e.to_string()),
        Ok(fen) => match fen.into_position::<Chess>(CastlingMode::Standard) {
            Err(e) => Err(e.to_string()),
            Ok(p) => Ok(Fen::from_position(p, EnPassantMode::Legal).to_string()),
        },
    }
}

/// `Fen::from_position(Chess::default(), EnPassantMode::Legal).to_string()`:
/// `Chess::default()` is documented as the standard starting position, whose
/// FEN is stated.
#[verifier::external_body]
fn default_fen() -> (r: String)
    ensures
        r@ == start_fen(),
{
    Fen::from_position(Chess::default(), EnPassantMode::Legal).to_string()
}

/// `Position::turn` of the position of `fen`, compared with White; false
/// without a position.
#[verifier::external_body]
fn turn_is_white(fen: &str) -> (r: bool)
    ensures
        r == fen_white_to_move(fen@),
{
    let p: Chess = match fen.parse::<Fen>() {
        Ok(f) => match f.into_position(CastlingMode::Standard) {
            Ok(p) => p,
            Err(_) => return false,
        },
        Err(_) => return false,
    };
    p.turn() == Color::White
}

/// `Position::is_checkmate` of the position of `fen`; false without one.
#[verifier::external_body]
fn checkmate(fen: &str) -> (r: bool)
    ensures
        r == fen_checkmate(fen@),
{
    let p: Chess = match fen.parse::<Fen>() {
        Ok(f) => match f.into_position(CastlingMode::Standard) {
            Ok(p) => p,
            Err(_) => return false,
        },
        Err(_) => return false,
    };
    p.is_checkmate()
}

/// `Position::is_stalemate` of the position of `fen`; false without one.
#[verifier::external_body]
fn stalemate(fen: &str) -> (r: bool)
    ensures
        r == fen_stalemate(fen@),
{
    let p: Chess = match fen.parse::<Fen>() {
        Ok(f) => match f.into_position(CastlingMode::Standard) {
            Ok(p) => p,
            Err(_) => return false,
        },
        Err(_) => return false,
    };
    p.is_stalemate()
}

/// `Position::is_insufficient_material` of the position of `fen`; false without one.
#[verifier::external_body]
fn insufficient(fen: &str) -> (r: bool)
    ensures
        r == fen_insufficient(fen@),
{
    let p: Chess = match fen.parse::<Fen>() {
        Ok(f) => match f.into_position(CastlingMode::Standard) {
            Ok(p) => p,
            Err(_) => return false,
        },
        Err(_) => return false,
    };
    p.is_insufficient_material()
}

/// `Position::is_check` of the position of `fen`; false without one.
#[verifier::external_body]
fn check(fen: &str) -> (r: bool)
    ensures
        r == fen_check(fen@),
{
    let p: Chess = match fen.parse::<Fen>() {
        Ok(f) => match f.into_position(CastlingMode::Standard) {
            Ok(p) => p,
            Err(_) => return false,
        },
        Err(_) => return false,
    };
    p.is_check()
}

/// `Position::halfmoves` of the position of `fen`; 0 without one.
#[verifier::external_body]
fn halfmove_clock(fen: &str) -> (r: u32)
    ensures
        r == fen_halfmoves(fen@),
{
    let p: Chess = match fen.parse::<Fen>() {
        Ok(f) => match f.into_position(CastlingMode::Standard) {
            Ok(p) => p,
            Err(_) => return 0,
        },
        Err(_) => return 0,
    };
    p.halfmoves()
}

/// `Position::fullmoves` of the position of `fen`, as an integer; 1 without
/// one. Its type (`NonZeroU32`) makes it at least one.
#[verifier::external_body]
fn fullmove_number(fen: &str) -> (r: u32)
    ensures
        r == fen_fullmoves(fen@),
        r >= 1,
{
    let p: Chess = match fen.parse::<Fen>() {
        Ok(f) => match f.into_position(CastlingMode::Standard) {
            Ok(p) => p,
            Err(_) => return 1,
        },
        Err(_) => return 1,
    };
    p.fullmoves().get()
}

/// `Position::legal_moves` of the position of `fen`, each written with
/// `UciMove::from_move(.., CastlingMode::Standard).to_string()`.
#[verifier::external_body]
fn legal_move_list(fen: &str) -> (r: Vec<String>)
    ensures
        r@.map_values(|s: String| s@) == fen_legal_moves(fen@),
{
    let p: Chess = match fen.parse::<Fen>() {
        Ok(f) => match f.into_position(CastlingMode::Standard) {
            Ok(p) => p,
            Err(_) => return Vec::new(),
        },
        Err(_) => return Vec::new(),
    };
    p.legal_moves().iter().map(|m| UciMove::from_move(m, CastlingMode::Standard).to_string()).collect()
}

/// `text.parse::<UciMove>()` and `UciMove::to_move` in the position of `fen`; a legal move is written back with `UciMove::from_move(.., Standard)`.
#[verifier::external_body]
fn uci_to_move(fen: &str, text: &str) -> (r: Option<Option<String>>)
    ensures
        match r {
            None => fen_uci_move(fen@, text@) is None,
            Some(o) => fen_uci_move(fen@, text@) == Some(opt_view(o)),
        },
{
    let p: Chess = match fen.parse::<Fen>() {
        Ok(f) => match f.into_position(CastlingMode::Standard) {
            Ok(p) => p,
            Err(_) => return None,
        },
        Err(_) => return None,
    };
    match text.parse::<UciMove>() {
        Err(_) => None,
        Ok(u) => Some(u.to_move(&p).ok().map(|m| UciMove::from_move(&m, CastlingMode::Standard).to_string())),
    }
}

/// `San::from_ascii` and `San::to_move` in the position of `fen`; a
/// legal move is written with `UciMove::from_move(.., Standard)`, errors with `to_string`.
#[verifier::external_body]
fn san_to_move(fen: &str, text: &str) -> (r: Result<String, String>)
    ensures
        res_view(r) == fen_san_move(fen@, text@),
{
    let p: Chess = match fen.parse::<Fen>() {
        Ok(f) => match f.into_position(CastlingMode::Standard) {
            Ok(p) => p,
            Err(_) => return Err(String::new()),
        },
        Err(_) => return Err(String::new()),
    };
    let san = San::from_ascii(text.as_bytes()).map_err(|e| e.to_string())?;
    san.to_move(&p).map(|m| UciMove::from_move(&m, CastlingMode::Standard).to_string()).map_err(|e| e.to_string())
}

/// `Position::play_unchecked` of the legal UCI move `uci` (`UciMove::to_move`) in
/// the position set up from `fen`, written with `Fen::from_position(.., Legal)`.
#[verifier::external_body]
fn play_uci(fen: &str, uci: &str) -> (r: Option<String>)
    ensures
        opt_view(r) == fen_after(fen@, uci@),
{
    let mut p: Chess = match fen.parse::<Fen>() {
        Ok(f) => match f.into_position(CastlingMode::Standard) {
            Ok(p) => p,
            Err(_) => return None,
        },
        Err(_) => return None,
    };
    let m = uci.parse::<UciMove>().ok()?.to_move(&p).ok()?;
    p.play_unchecked(&m);
    Some(Fen::from_position(p, EnPassantMode::Legal).to_string())
}

/// `SanPlus::from_move(..).to_string()` of the legal UCI move `uci`
/// (`UciMove::to_move`) in the position of `fen`.
#[verifier::external_body]
fn san_of_uci(fen: &str, uci: &str) -> (r: Option<String>)
    ensures
        opt_view(r) == fen_san(fen@, uci@),
{
    let p: Chess = match fen.parse::<Fen>() {
        Ok(f) => match f.into_position(CastlingMode::Standard) {
            Ok(p) => p,
            Err(_) => return None,
        },
        Err(_) => return None,
    };
    let m = uci.parse::<UciMove>().ok()?.to_move(&p).ok()?;
    Some(SanPlus::from_move(p, &m).to_string())
}

/// A standard chess position, held as the FEN that shakmaty writes for it.
#[derive(Debug, PartialEq, Eq)]
pub struct Position {
    fen: String,
}

impl View for Position {
    type V = Seq<char>;

    closed spec fn view(&self) -> Seq<char> {
        self.fen@
    }
}

impl Position {
    /// Sets up the position of a FEN; the error is shakmaty's message.
    pub fn from_fen(text: &str) -> (r: Result<Position, String>)
        ensures
            match r {
                Ok(p) => fen_position(text@) == Ok::<Seq<char>, Seq<char>>(p@),
                Err(e) => fen_position(text@) == Err::<Seq<char>, Seq<char>>(e@),
            },
    {
        match setup_fen(text) {
            Ok(f) => Ok(Position { fen: f }),
            Err(e) => Err(e),
        }
    }

    /// The standard starting position.
    pub fn start() -> (r: Position)
        ensures
            r@ == start_fen(),
    {
        Position { fen: default_fen() }
    }

    /// A second position equal to this one.
    pub fn duplicate(&self) -> (r: Position)
        ensures
            r@ == self@,
    {
        Position { fen: self.fen.clone() }
    }

    /// The FEN of the position.
    pub fn fen(&self) -> (r: &str)
        ensures
            r@ == self@,
    {
        self.fen.as_str()
    }

    pub fn white_to_move(&self) -> (r: bool)
        ensures
            r == fen_white_to_move(self@),
    {
        turn_is_white(self.fen())
    }

    pub fn is_checkmate(&self) -> (r: bool)
        ensures
            r == fen_checkmate(self@),
    {
        checkmate(self.fen())
    }

    pub fn is_stalemate(&self) -> (r: bool)
        ensures
            r == fen_stalemate(self@),
    {
        stalemate(self.fen())
    }

    pub fn is_insufficient_material(&self) -> (r: bool)
        ensures
            r == fen_insufficient(self@),
    {
        insufficient(self.fen())
    }

    pub fn is_check(&self) -> (r: bool)
        ensures
            r == fen_check(self@),
    {
        check(self.fen())
    }

    pub fn halfmoves(&self) -> (r: u32)
        ensures
            r == fen_halfmoves(self@),
    {
        halfmove_clock(self.fen())
    }

    pub fn fullmoves(&self) -> (r: u32)
        ensures
            r == fen_fullmoves(self@),
            r >= 1,
    {
        fullmove_number(self.fen())
    }

    /// The legal moves in standard UCI.
    pub fn legal_moves(&self) -> (r: Vec<String>)
        ensures
            r@.map_values(|s: String| s@) == fen_legal_moves(self@),
    {
        legal_move_list(self.fen())
    }

    /// The reading of `text` as a UCI move here.
    pub fn uci_move(&self, text: &str) -> (r: Option<Option<String>>)
        ensures
            match r {
                None => fen_uci_move(self@, text@) is None,
                Some(o) => fen_uci_move(self@, text@) == Some(opt_view(o)),
            },
    {
        uci_to_move(self.fen(), text)
    }

    /// The reading of `text` as SAN here.
    pub fn san_move(&self, text: &str) -> (r: Result<String, String>)
        ensures
            res_view(r) == fen_san_move(self@, text@),
    {
        san_to_move(self.fen(), text)
    }

    /// The SAN of the move `uci` here.
    pub fn san(&self, uci: &str) -> (r: Option<String>)
        ensures
            opt_view(r) == fen_san(self@, uci@),
    {
        san_of_uci(self.fen(), uci)
    }

    /// The position after the move `uci`; `None` when it is no legal move here.
    pub fn successor(&self, uci: &str) -> (r: Option<Position>)
        ensures
            match r {
                Some(p) => fen_after(self@, uci@) == Some(p@),
                None => fen_after(self@, uci@) is None,
            },
    {
        match play_uci(self.fen(), uci) {
            Some(next) => Some(Position { fen: next }),
            None => None,
        }
    }
}

} // verus!
