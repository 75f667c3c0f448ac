use omarchy_chess::chess::Position;
use omarchy_chess::game::{Difficulty, Game, Mode};
use omarchy_chess::pgn::{pgn_body, single_game, PgnImport, PgnOutcome};
use omarchy_chess::sound::{cue, cue_samples};
use omarchy_chess::storage::Session;
use omarchy_chess::theme::{parse_color, Rgb, Theme};
use pgn_reader::{BufferedReader, RawHeader, Skip, Visitor};
use shakmaty::{fen::Fen, san::SanPlus, CastlingMode, Chess, Color, Position as _, Role, Square};

/// Drives the library's PGN import with pgn-reader, as the application does.
struct Import(PgnImport);

impl Visitor for Import {
    type Result = Result<Game, String>;
    fn begin_game(&mut self) {
        self.0 = PgnImport::new();
    }
    fn header(&mut self, key: &[u8], value: RawHeader<'_>) {
        let key = String::from_utf8_lossy(key).to_string();
        let value = value.decode_utf8_lossy().into_owned();
        self.0.header(&key, &value);
    }
    fn san(&mut self, san: SanPlus) {
        self.0.san(&san.san.to_string());
    }
    fn begin_variation(&mut self) -> Skip {
        Skip(true)
    }
    fn outcome(&mut self, outcome: Option<shakmaty::Outcome>) {
        self.0.outcome(outcome.map(|o| match o {
            shakmaty::Outcome::Decisive { winner: Color::White } => PgnOutcome::WhiteWins,
            shakmaty::Outcome::Decisive { winner: Color::Black } => PgnOutcome::BlackWins,
            shakmaty::Outcome::Draw => PgnOutcome::Draw,
        }));
    }
    fn end_game(&mut self) -> Self::Result {
        std::mem::replace(&mut self.0, PgnImport::new()).end_game()
    }
}

fn from_pgn(text: &str) -> Result<Game, String> {
    let body = pgn_body(text)?;
    let mut reader = BufferedReader::new_cursor(body.as_bytes());
    let first = reader
        .read_game(&mut Import(PgnImport::new()))
        .map_err(|e| e.to_string())?;
    if let Some(Ok(_)) = &first {
        let another = reader
            .read_game(&mut Import(PgnImport::new()))
            .map_err(|e| e.to_string())?
            .is_some();
        return single_game(first, another);
    }
    single_game(first, false)
}

fn board(g: &Game) -> Chess {
    g.fen()
        .parse::<Fen>()
        .unwrap()
        .into_position(CastlingMode::Standard)
        .unwrap()
}

fn play(g: &mut Game, moves: &[&str]) {
    for text in moves {
        let m = g.parse_move(text).unwrap();
        g.play(&m).unwrap();
    }
}

fn custom(fen: &str) -> Game {
    Game::new(Position::from_fen(fen).unwrap())
}

#[test]
fn mate_and_illegal_rejection() {
    let mut g = Game::default();
    play(&mut g, &["f3", "e5", "g4", "Qh4#"]);
    assert!(g.finished());
    assert_eq!(g.result_text(), "0-1");
    assert!(g.parse_move("a2a3").and_then(|m| g.play(&m)).is_err());
}

#[test]
fn castle_uses_standard_uci() {
    let mut g = Game::default();
    play(&mut g, &["e4", "e5", "Nf3", "Nc6", "Bc4", "Nf6", "O-O"]);
    assert_eq!(board(&g).board().king_of(Color::White), Some(Square::G1));
    assert!(g.uci_position().ends_with("e1g1"));
    assert_eq!(from_pgn(&g.pgn()).unwrap().fen(), g.fen());
}

#[test]
fn en_passant() {
    let mut g = Game::default();
    play(&mut g, &["e4", "a6", "e5", "d5", "exd6"]);
    assert!(board(&g).board().piece_at(Square::D5).is_none());
    assert_eq!(board(&g).board().piece_at(Square::D6).unwrap().role, Role::Pawn);
}

#[test]
fn all_promotions() {
    for (suffix, role) in [
        ("q", Role::Queen),
        ("r", Role::Rook),
        ("b", Role::Bishop),
        ("n", Role::Knight),
    ] {
        let mut g = custom("7k/P7/8/8/8/8/8/7K w - - 0 1");
        play(&mut g, &[&format!("a7a8{suffix}")]);
        assert_eq!(board(&g).board().piece_at(Square::A8).unwrap().role, role);
    }
}

#[test]
fn stalemate() {
    assert!(custom("7k/5Q2/6K1/8/8/8/8/8 b - - 0 1")
        .status()
        .contains("Stalemate"));
}

#[test]
fn insufficient_material() {
    assert!(custom("7k/8/6K1/8/8/8/8/8 w - - 0 1").finished());
}

#[test]
fn seventy_five_move_rule() {
    assert!(custom("7k/8/6K1/8/8/8/8/R7 w - - 150 90").finished());
}

#[test]
fn fifty_move_claim() {
    let mut g = custom("7k/8/6K1/8/8/8/8/R7 w - - 100 90");
    assert!(!g.finished());
    g.claim_draw().unwrap();
    assert_eq!(g.result_text(), "1/2-1/2");
}

#[test]
fn intended_move_draw_claim() {
    let mut g = custom("7k/8/6K1/8/8/8/8/R7 w - - 99 90");
    assert!(g.can_claim_draw());
    g.claim_draw().unwrap();
}

#[test]
fn repetition_survives_resume() {
    let mut g = Game {
        mode: Mode::Local,
        ..Game::default()
    };
    play(
        &mut g,
        &["Nf3", "Nf6", "Ng1", "Ng8", "Nf3", "Nf6", "Ng1", "Ng8"],
    );
    assert!(!g.finished());
    let saved = Session::capture(&g, true, false);
    let (mut restored, flip, guides) = saved.game().unwrap();
    assert!(flip && !guides);
    restored.claim_draw().unwrap();
    restored.takeback();
    assert!(!restored.finished());
}

#[test]
fn fivefold_is_automatic() {
    let mut g = Game::default();
    for _ in 0..4 {
        play(&mut g, &["Nf3", "Nf6", "Ng1", "Ng8"]);
    }
    assert!(g.status().contains("Fivefold"));
}

#[test]
fn undo_computer_reply_and_pending_turn() {
    let mut g = Game::default();
    play(&mut g, &["e4", "e5"]);
    g.takeback();
    assert!(g.moves.is_empty());
    play(&mut g, &["d4"]);
    g.takeback();
    assert!(g.moves.is_empty());
}

#[test]
fn black_takeback_and_resignation() {
    let mut g = Game {
        human_white: false,
        ..Game::default()
    };
    play(&mut g, &["e4"]);
    assert!(!g.can_takeback());
    play(&mut g, &["e5", "Nf3"]);
    g.takeback();
    assert_eq!(g.moves.len(), 1);
    g.resign();
    assert_eq!(g.result_text(), "1-0");
}

#[test]
fn invalid_pgn_does_not_import() {
    for pgn in [
        "",
        "[FEN \"8/8/8/8/8/8/8/8 w - - 0 1\"]\n\n*",
        "[Variant \"Atomic\"]\n\n1. e4 *",
        "1. e4 e5 2. Bh6 *",
        "[Result \"nonsense\"]\n\n*",
        "1. e4 *\n\n[Event \"Other\"]\n\n1. d4 *",
        "[Result \"1-0\"]\n\n1. e4 0-1",
    ] {
        assert!(from_pgn(pgn).is_err(), "accepted {pgn}");
    }
}

#[test]
fn custom_fen_roundtrip() {
    let mut g = custom("7k/8/6K1/8/8/8/8/R7 w - - 0 1");
    play(&mut g, &["Ra2"]);
    let import = from_pgn(&g.pgn()).unwrap();
    assert_eq!(import.fen(), g.fen());
    assert_eq!(import.positions[0], g.positions[0]);
}

#[test]
fn reject_move_after_result() {
    assert!(from_pgn("1. f3 e5 2. g4 Qh4# 3. a3 0-1").is_err());
}

#[test]
fn comments_and_variations_ignore_mainline() {
    let g = from_pgn("1. e4 {note} (1. d4 d5) e5 *").unwrap();
    assert_eq!(g.moves.len(), 2);
}

#[test]
fn session_validation() {
    let mut s = Session::capture(&Game::default(), false, true);
    s.version = 999;
    assert!(s.game().is_err());
    let mut s = Session::capture(&Game::default(), false, true);
    s.moves = vec!["e2e5".into()];
    assert!(s.game().is_err());
}

#[test]
fn theme_validation() {
    assert!(parse_color("#123456").is_some());
    assert!(parse_color("#ééé").is_none());
    let t = Theme::parse("accent = '#123456'\nbackground='url(evil)'");
    assert_eq!(t.background, Theme::default().background);
    assert_ne!(t.accent, Theme::default().accent);
    assert_eq!(Theme::parse("not toml"), Theme::default());
}

#[test]
fn bounded_import() {
    assert!(from_pgn(&" ".repeat(1_000_001)).is_err());
}

#[test]
fn current_theme_precedes_legacy_and_survives_replacement() {
    // The first readable file of the list wins; unreadable ones fall through.
    fn load_from(files: &[Option<&[u8]>]) -> Option<Theme> {
        files.iter().find_map(|f| f.and_then(Theme::from_file))
    }
    let legacy: &[u8] = b"background='#000000'\nforeground='#ffffff'";
    assert!(!load_from(&[None, Some(legacy)]).unwrap().light());
    let current: &[u8] = b"background='#ffffff'\nforeground='#101010'\naccent='#002255'";
    let theme = load_from(&[Some(current), Some(legacy)]).unwrap();
    assert!(theme.light());
    assert_eq!(theme.accent_text(), Rgb::white());
    let invalid: &[u8] = b"invalid";
    assert!(!load_from(&[Some(invalid), Some(legacy)]).unwrap().light());
}

/// The cue's samples: a sine at 440 Hz (660 Hz in the second half of the
/// game-end cue) under a short attack and a linear decay.
fn tone(finished: bool) -> Vec<i16> {
    let rate = 22050_u32;
    let samples = cue_samples(finished);
    (0..samples)
        .map(|i| {
            let t = i as f32 / rate as f32;
            let frequency = if finished && i > samples / 2 { 660. } else { 440. };
            let envelope = (1. - i as f32 / samples as f32) * (i as f32 / 100.).min(1.);
            ((t * frequency * std::f32::consts::TAU).sin() * envelope * 2800.) as i16
        })
        .collect()
}

#[test]
fn original_sound_cues_are_valid_bounded_pcm() {
    for finished in [false, true] {
        let wav = cue(finished, &tone(finished));
        assert_eq!(&wav[..4], b"RIFF");
        assert_eq!(&wav[8..12], b"WAVE");
        let len = u32::from_le_bytes(wav[40..44].try_into().unwrap()) as usize;
        assert_eq!(len + 44, wav.len());
        assert!(len < 16000);
    }
}

#[test]
fn difficulty_presets() {
    assert_eq!(Difficulty::Gentle.settings(), (0, 150));
    assert_eq!(Difficulty::Strong.settings(), (20, 1000));
    assert_eq!(Difficulty::Club.label(), "Club");
    assert_eq!(Difficulty::default(), Difficulty::Casual);
    assert_eq!(Difficulty::ALL.len(), 4);
}
