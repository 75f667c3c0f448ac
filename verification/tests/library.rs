use omarchy_chess::chess::Position;
use omarchy_chess::engine::{
    best_move, completes, go, handshake, reader_step, search_difficulty, setoption_commands,
    setup, LineStep,
};
use omarchy_chess::game::{fen, Difficulty, Game, Mode};
use omarchy_chess::headers::Headers;
use omarchy_chess::pgn::{pgn_body, single_game, PgnImport, PgnOutcome};
use omarchy_chess::pieces::{image_index, replace, PieceRole, Pieces};
use omarchy_chess::preferences::{PieceStyle, Preferences};
use omarchy_chess::sound::{cue, cue_samples};
use omarchy_chess::storage::{
    archive_name, archive_plan, check_size, legacy_game, legacy_save, stamp, stamp_of, ArchiveKind,
    Session,
};
use omarchy_chess::text::{decimal_string, escape_text, split_words, trim_chars};
use omarchy_chess::theme::{parse_color, Rgb, Theme};

const START: &str = "rnbqkbnr/pppppppp/8/8/8/8/PPPPPPPP/RNBQKBNR w KQkq - 0 1";

fn play(g: &mut Game, moves: &[&str]) {
    for text in moves {
        let m = g.parse_move(text).unwrap();
        g.play(&m).unwrap();
    }
}

fn custom(fen: &str) -> Game {
    Game::new(Position::from_fen(fen).unwrap())
}

fn strings(v: &[&str]) -> Vec<String> {
    v.iter().map(|s| s.to_string()).collect()
}

#[test]
fn takeback_after_local_move_restores_the_game() {
    let mut g = Game {
        mode: Mode::Local,
        ..Game::default()
    };
    play(&mut g, &["e4", "c5"]);
    let before: Vec<String> = g.positions.iter().map(|p| p.fen().to_string()).collect();
    let moves = g.moves.clone();
    let notation = g.notation.clone();
    play(&mut g, &["Nf3"]);
    g.takeback();
    let after: Vec<String> = g.positions.iter().map(|p| p.fen().to_string()).collect();
    assert_eq!(after, before);
    assert_eq!(g.moves, moves);
    assert_eq!(g.notation, notation);
    assert_eq!(g.result, "*");
}

#[test]
fn takeback_against_engine_removes_its_reply() {
    let mut g = Game::default();
    play(&mut g, &["e4", "e5", "Nf3", "Nc6"]);
    g.takeback();
    assert_eq!(g.moves, strings(&["e2e4", "e7e5"]));
}

#[test]
fn start_position_and_legal_moves() {
    let g = Game::default();
    assert_eq!(g.fen(), START);
    assert_eq!(fen(g.position()), START);
    assert_eq!(g.position().legal_moves().len(), 20);
    assert!(g.position().white_to_move());
    assert_eq!(g.position().fullmoves(), 1);
    assert_eq!(g.position().halfmoves(), 0);
}

#[test]
fn fen_is_written_back_by_shakmaty() {
    // The en passant square is not legal here, so it is not written back.
    let p = Position::from_fen("4k3/8/8/8/3Pp3/8/8/3KR3 b - d3 0 1").unwrap();
    assert_eq!(p.fen(), "4k3/8/8/8/3Pp3/8/8/3KR3 b - - 0 1");
    assert!(Position::from_fen("not a fen").is_err());
    assert!(Position::from_fen("8/8/8/8/8/8/8/8 w - - 0 1").is_err());
}

#[test]
fn notation_and_uci_position() {
    let mut g = Game::default();
    play(&mut g, &["e4", "e5", "Qh5", "Nc6", "Bc4", "Nf6", "Qxf7#"]);
    assert_eq!(
        g.notation,
        strings(&[
            "1.  e4",
            "1\u{2026}  e5",
            "2.  Qh5",
            "2\u{2026}  Nc6",
            "3.  Bc4",
            "3\u{2026}  Nf6",
            "4.  Qxf7#"
        ])
    );
    assert_eq!(
        g.uci_position(),
        format!("position fen {START} moves e2e4 e7e5 d1h5 b8c6 f1c4 g8f6 h5f7")
    );
    assert_eq!(g.status(), "Checkmate \u{b7} 1-0");
    assert_eq!(Game::default().uci_position(), format!("position fen {START}"));
}

#[test]
fn pgn_of_a_short_game() {
    let mut g = Game::default();
    play(&mut g, &["e4", "e5"]);
    assert_eq!(
        g.pgn(),
        "[Black \"Stockfish\"]\n[Event \"Omarchy Chess\"]\n[Result \"*\"]\n[White \"White\"]\n\n1. e4 e5 *\n"
    );
}

#[test]
fn pgn_from_a_custom_position_with_black_to_move() {
    let mut g = Game {
        mode: Mode::Local,
        ..custom("7k/8/6K1/8/8/8/8/R7 b - - 0 1")
    };
    g.headers.set("Event", "Club \"final\"\nround");
    play(&mut g, &["Kg8", "Ra8#"]);
    assert_eq!(
        g.pgn(),
        "[Black \"Black\"]\n[Event \"Club \\\"final\\\" round\"]\n[FEN \"7k/8/6K1/8/8/8/8/R7 b - - 0 1\"]\n[Result \"1-0\"]\n[SetUp \"1\"]\n[White \"White\"]\n\n1... Kg8 2. Ra8# 1-0\n"
    );
}

#[test]
fn status_lines() {
    let mut g = Game::default();
    assert_eq!(g.status(), "White to move");
    play(&mut g, &["e4", "f5", "Qh5+"]);
    assert_eq!(g.status(), "Black to move \u{b7} Check");
    g.resign();
    assert_eq!(g.status(), "White resigned \u{b7} 0-1");
}

#[test]
fn move_reading_errors() {
    let g = Game::default();
    assert_eq!(g.parse_move("  e4 \n").unwrap(), "e2e4");
    assert_eq!(g.parse_move("g1f3").unwrap(), "g1f3");
    assert_eq!(
        g.parse_move("zz").unwrap_err(),
        "Move not recognised. Try e4, Nf3, O-O or e7e8n."
    );
    assert_eq!(g.parse_move("e2e5").unwrap_err(), "That move is not legal.");
}

#[test]
fn finished_game_refuses_moves_and_draw_claims() {
    let mut g = Game {
        mode: Mode::Local,
        ..Game::default()
    };
    assert_eq!(g.claim_draw().unwrap_err(), "No draw can be claimed here.");
    g.resign();
    assert_eq!(g.result, "0-1");
    assert_eq!(g.ending, "White resigned");
    assert_eq!(
        g.play("e2e4").unwrap_err(),
        "That move is not legal in this position."
    );
    assert!(!g.human_turn());
    assert!(!g.can_claim_draw());
}

#[test]
fn human_turn_follows_the_side() {
    let mut g = Game::default();
    assert!(g.human_turn());
    play(&mut g, &["d4"]);
    assert!(!g.human_turn());
    g.mode = Mode::Local;
    assert!(g.human_turn());
}

#[test]
fn repetitions_are_counted_by_position() {
    let mut g = Game::default();
    play(&mut g, &["Nf3", "Nf6", "Ng1", "Ng8"]);
    let start = Position::start();
    assert_eq!(g.repetitions(&start), 2);
    assert_eq!(g.automatic_result(), None);
}

#[test]
fn headers_are_a_sorted_map() {
    let mut h = Headers::new();
    h.set("White", "A");
    h.set("Black", "B");
    h.set("Event", "C");
    h.set("White", "D");
    assert_eq!(h.len(), 3);
    assert_eq!(h.pair(0), ("Black", "B"));
    assert_eq!(h.pair(1), ("Event", "C"));
    assert_eq!(h.pair(2), ("White", "D"));
    assert_eq!(h.get("White"), Some("D".to_string()));
    h.set_default("White", "E");
    h.set_default("Round", "1");
    assert_eq!(h.get("White"), Some("D".to_string()));
    assert_eq!(h.get("Round"), Some("1".to_string()));
    h.remove("Event");
    h.remove("Missing");
    assert_eq!(h.get("Event"), None);
    assert_eq!(h.len(), 3);
}

#[test]
fn pgn_import_events() {
    let mut i = PgnImport::new();
    i.header("Variant", "Atomic");
    assert_eq!(i.end_game().unwrap_err(), "Only standard chess is supported.");

    let mut i = PgnImport::new();
    i.header("FEN", "8/8/8/8/8/8/8/8 w - - 0 1");
    assert_eq!(i.end_game().unwrap_err(), "Invalid PGN starting position.");

    let mut i = PgnImport::new();
    i.header("Result", "1-0");
    i.san("e4");
    i.outcome(Some(PgnOutcome::BlackWins));
    assert_eq!(
        i.end_game().unwrap_err(),
        "PGN result header and movetext disagree."
    );

    assert_eq!(PgnImport::new().end_game().unwrap_err(), "No chess game found.");

    let mut i = PgnImport::new();
    i.san("e4");
    i.san("Bh6");
    assert_eq!(i.end_game().unwrap_err(), "illegal san");

    let mut i = PgnImport::new();
    i.header("Event", "Test");
    for m in ["f3", "e5", "g4", "Qh4#"] {
        i.san(m);
    }
    i.outcome(Some(PgnOutcome::BlackWins));
    let g = i.end_game().unwrap();
    assert_eq!(g.result, "0-1");
    assert_eq!(g.ending, "Imported result");
    assert_eq!(g.mode, Mode::Local);
    assert_eq!(g.headers.get("Event"), Some("Test".to_string()));

    let mut i = PgnImport::new();
    for m in ["f3", "e5", "g4", "Qh4#"] {
        i.san(m);
    }
    i.outcome(Some(PgnOutcome::Draw));
    assert_eq!(
        i.end_game().unwrap_err(),
        "Result contradicts the final position."
    );
}

#[test]
fn exported_tags_and_moves_import_back() {
    let mut g = custom("7k/8/6K1/8/8/8/8/R7 w - - 0 1");
    g.mode = Mode::Local;
    play(&mut g, &["Ra2", "Kg8", "Ra8#"]);
    let mut i = PgnImport::new();
    for (k, v) in [
        ("Black", "Black"),
        ("Event", "Omarchy Chess"),
        ("FEN", "7k/8/6K1/8/8/8/8/R7 w - - 0 1"),
        ("Result", "1-0"),
        ("SetUp", "1"),
        ("White", "White"),
    ] {
        i.header(k, v);
    }
    for m in ["Ra2", "Kg8", "Ra8"] {
        i.san(m);
    }
    i.outcome(Some(PgnOutcome::WhiteWins));
    let h = i.end_game().unwrap();
    let fens = |x: &Game| -> Vec<String> { x.positions.iter().map(|p| p.fen().to_string()).collect() };
    assert_eq!(fens(&h), fens(&g));
    assert_eq!(h.moves, g.moves);
    assert_eq!(h.notation, g.notation);
    assert_eq!(h.result, "1-0");
    assert_eq!(g.result_text(), "1-0");
}

#[test]
fn pgn_text_checks() {
    assert_eq!(pgn_body("\u{feff}\u{feff}1. e4 *").unwrap(), "1. e4 *");
    assert_eq!(
        pgn_body(" \n\t").unwrap_err(),
        "PGN must contain one game, at most 1 MB."
    );
    assert_eq!(single_game(None, false).unwrap_err(), "PGN is empty.");
    assert_eq!(
        single_game(Some(Ok(Game::default())), true).unwrap_err(),
        "Import one game at a time."
    );
    assert!(single_game(Some(Ok(Game::default())), false).is_ok());
    assert_eq!(
        single_game(Some(Err("bad".to_string())), false).unwrap_err(),
        "bad"
    );
}

#[test]
fn session_round_trip_keeps_the_game() {
    let mut g = Game {
        mode: Mode::Local,
        difficulty: Difficulty::Club,
        ..Game::default()
    };
    play(
        &mut g,
        &["e4", "d5", "exd5", "c6", "dxc6", "Nf6", "cxb7", "e6", "bxa8=Q", "Bd6"],
    );
    play(&mut g, &["Nf3", "O-O", "Be2", "Ba6", "O-O"]);
    g.headers.set("Event", "Resume");
    let s = Session::capture(&g, false, true);
    assert_eq!(s.version, 2);
    assert_eq!(s.initial_fen, START);
    let (r, flipped, guides) = s.game().unwrap();
    assert!(!flipped && guides);
    assert_eq!(r.fen(), g.fen());
    assert_eq!(r.moves, g.moves);
    assert_eq!(r.notation, g.notation);
    assert_eq!(r.positions, g.positions);
    assert_eq!(r.mode, Mode::Local);
    assert_eq!(r.difficulty, Difficulty::Club);
    assert_eq!(r.headers.get("Event"), Some("Resume".to_string()));
}

#[test]
fn session_errors() {
    let mut s = Session::capture(&Game::default(), false, false);
    s.result = "2-0".into();
    assert_eq!(s.game().unwrap_err(), "Invalid saved result.");
    let mut g = Game::default();
    play(&mut g, &["f3", "e5", "g4", "Qh4#"]);
    let mut s = Session::capture(&g, false, false);
    s.result = "1-0".into();
    assert_eq!(s.game().unwrap_err(), "Saved result contradicts position.");
    let mut s = Session::capture(&Game::default(), false, false);
    s.version = 1;
    assert_eq!(s.game().unwrap_err(), "Unknown saved-session version.");
    let mut s = Session::capture(&Game::default(), false, false);
    s.initial_fen = "nonsense".into();
    assert!(s.game().is_err());
}

#[test]
fn storage_helpers() {
    assert!(check_size(10, 10).is_ok());
    assert_eq!(
        check_size(11, 10).unwrap_err(),
        "File is too large (maximum 10 bytes)."
    );
    assert_eq!(archive_name("17", ArchiveKind::Game), "17.pgn");
    assert_eq!(archive_name("17", ArchiveKind::Recovery), "17-recovery.json");
    assert_eq!(
        archive_name("17", ArchiveKind::Legacy),
        "17-python-session.json"
    );
    assert_eq!(archive_plan(&Game::default(), true, true), (true, false));
    let mut g = Game::default();
    play(&mut g, &["e4"]);
    assert_eq!(archive_plan(&g, false, true), (false, true));
    let s = stamp();
    assert!(!s.is_empty() && s.bytes().all(|b| b.is_ascii_digit()));
}

#[test]
fn legacy_sessions() {
    let g = legacy_game(
        1,
        Ok(Game::default()),
        Mode::Computer,
        false,
        Difficulty::Club,
        "old".into(),
    )
    .unwrap();
    assert!(!g.human_white);
    assert_eq!(g.difficulty, Difficulty::Club);
    assert_eq!(g.ending, "old");
    assert_eq!(
        legacy_game(2, Ok(Game::default()), Mode::Local, true, Difficulty::Gentle, String::new())
            .unwrap_err(),
        "Unknown legacy version"
    );
    assert_eq!(
        legacy_game(1, Err("x".into()), Mode::Local, true, Difficulty::Gentle, String::new())
            .unwrap_err(),
        "x"
    );
}

#[test]
fn engine_output_lines() {
    let eof = reader_step(0, "", 0);
    assert!(matches!(eof.0, LineStep::Stop(ref e) if e == "Stockfish exited before returning a move."));
    let big = reader_step(65537, "x", 0);
    assert!(matches!(big.0, LineStep::Stop(ref e) if e == "Engine response is too large."));
    assert!(matches!(reader_step(6, "uciok\n", 0).0, LineStep::Forward(ref l) if l == "uciok"));
    assert!(matches!(reader_step(5, "info\n", 0).0, LineStep::Ignore));
    let opt = reader_step(30, "option name Hash type spin\n", 3);
    assert!(matches!(opt.0, LineStep::Forward(ref l) if l == "option name Hash type spin"));
    assert_eq!(opt.1, 4);
    let many = reader_step(30, "option name Hash type spin\n", 256);
    assert!(matches!(many.0, LineStep::Stop(ref e) if e == "Too many engine options."));
}

#[test]
fn engine_protocol() {
    assert!(completes("bestmove e2e4", "bestmove"));
    assert!(completes("uciok", "uciok"));
    assert!(!completes("bestmoves", "bestmove"));
    let options = strings(&[
        "option name Hash type spin default 16",
        "option name Skill Level type spin default 20",
    ]);
    assert_eq!(
        setoption_commands(&options, 5),
        strings(&["setoption name Hash value 32", "setoption name Skill Level value 5"])
    );
    assert_eq!(handshake().send, strings(&["uci"]));
    let s = setup(&options, Difficulty::Club);
    assert_eq!(
        s.send,
        strings(&[
            "setoption name Hash value 32",
            "setoption name Skill Level value 10",
            "ucinewgame",
            "isready"
        ])
    );
    assert_eq!(s.wait_for, "readyok");
    let g = Game::default();
    let x = go(&g, Difficulty::Gentle);
    assert_eq!(x.send, vec![g.uci_position(), "go movetime 150".to_string()]);
    assert_eq!(x.timeout_ms, 3150);
    assert_eq!(search_difficulty(&g, true), Difficulty::Strong);
    assert_eq!(search_difficulty(&g, false), Difficulty::Casual);
}

#[test]
fn engine_best_move() {
    let g = Game::default();
    assert_eq!(
        best_move(&strings(&["readyok", "bestmove e2e4 ponder e7e5"]), &g).unwrap(),
        "e2e4"
    );
    assert!(best_move(&strings(&["bestmove e2e5"]), &g).is_err());
    assert_eq!(
        best_move(&strings(&["bestmove"]), &g).unwrap_err(),
        "Engine returned no move"
    );
    assert_eq!(best_move(&vec![], &g).unwrap_err(), "Engine returned no move");
}

#[test]
fn text_helpers() {
    assert_eq!(decimal_string(0), "0");
    assert_eq!(decimal_string(1234567890123), "1234567890123");
    assert_eq!(escape_text("a\\b\"c\nd\re"), "a\\\\b\\\"c d e");
    let cs: Vec<char> = "  a  bc\u{3000}d ".chars().collect();
    let ws: Vec<String> = split_words(&cs).iter().map(|w| w.iter().collect()).collect();
    assert_eq!(ws, strings(&["a", "bc", "d"]));
    let t: String = trim_chars(&cs).iter().collect();
    assert_eq!(t, "a  bc\u{3000}d");
}

#[test]
fn colours() {
    let c = Rgb { r: 0x27, g: 0x6d, b: 0xcf };
    assert_eq!(c.hex(), "#276dcf");
    assert_eq!(parse_color(&c.hex()), Some(c));
    assert_eq!(parse_color("#A0b0C0"), Some(Rgb { r: 0xa0, g: 0xb0, b: 0xc0 }));
    assert_eq!(parse_color("123456#"), None);
    assert_eq!(parse_color("#12345g"), None);
    let t = Theme::default();
    assert!(!t.light());
    assert_eq!(t.accent_text(), Rgb::black());
    assert_eq!(Theme::from_file(&[0xff, 0xfe]), None);
    assert_eq!(Theme::from_file(b"background='#ffffff'"), None);
}

#[test]
fn board_squares_match_float_scaling() {
    for v in 0..=255u8 {
        let t = Theme {
            accent: Rgb { r: v, g: v, b: v },
            ..Theme::default()
        };
        let dark = (v as f32 * 0.35 + 45.) as u8;
        let light = (v as f32 * 0.12 + 195.) as u8;
        assert_eq!(t.square(true), Rgb { r: dark, g: dark, b: dark });
        assert_eq!(t.square(false), Rgb { r: light, g: light, b: light });
    }
}

#[test]
fn cue_layout() {
    let tone: Vec<i16> = (0..cue_samples(false)).map(|i| if i == 0 { -2 } else { 1 }).collect();
    let wav = cue(false, &tone);
    assert_eq!(wav.len(), 44 + 2 * 1800);
    assert_eq!(&wav[..4], b"RIFF");
    assert_eq!(u32::from_le_bytes(wav[4..8].try_into().unwrap()), 36 + 3600);
    assert_eq!(&wav[8..16], b"WAVEfmt ");
    assert_eq!(u32::from_le_bytes(wav[24..28].try_into().unwrap()), 22050);
    assert_eq!(u32::from_le_bytes(wav[28..32].try_into().unwrap()), 44100);
    assert_eq!(&wav[36..40], b"data");
    assert_eq!(&wav[44..48], &[0xfe, 0xff, 0x01, 0x00]);
    assert_eq!(cue_samples(true), 6600);
}

#[test]
fn piece_artwork() {
    assert_eq!(image_index(false, PieceRole::Pawn), 0);
    assert_eq!(image_index(true, PieceRole::King), 11);
    assert_eq!(replace("a#b3cb92b#b3cb92", "#b3cb92", "#000000"), "a#000000b#000000");
    assert_eq!(replace("aaa", "aa", "b"), "ba");
    let artwork = strings(&["<svg fill=\"#b3cb92\"/>"; 12]);
    let mut p = Pieces::new();
    let accent = Rgb { r: 225, g: 90, b: 110 };
    assert!(p.refresh(accent, PieceStyle::Chisel, &artwork));
    assert_eq!(p.image(true, PieceRole::Queen), Some("<svg fill=\"#e15a6e\"/>"));
    assert!(!p.refresh(accent, PieceStyle::Chisel, &artwork));
    assert!(p.refresh(accent, PieceStyle::AfterHours, &artwork));
}

#[test]
fn preferences_defaults() {
    let p = Preferences::default();
    assert_eq!(p.version, 1);
    assert!(!p.sound && p.follow_omarchy);
    assert_eq!(p.piece_style, PieceStyle::AfterHours);
    assert_eq!(PieceStyle::Chisel.label(), "Chisel");
    assert_eq!(PieceStyle::AfterHours.label(), "After Hours");
    assert!(p.clone().checked().is_ok());
    let bad = Preferences { version: 2, ..p };
    assert_eq!(bad.checked().unwrap_err(), "Unsupported settings version");
}

#[test]
fn escaped_tag_value_reads_back_on_one_line() {
    let e = escape_text("a\"b\\c\nd");
    assert_eq!(e, "a\\\"b\\\\c d");
    assert!(!e.contains('\n') && !e.contains('\r'));
    let mut back = String::new();
    let mut chars = e.chars();
    while let Some(c) = chars.next() {
        if c == '\\' {
            if let Some(d) = chars.next() {
                back.push(d);
            }
        } else {
            back.push(c);
        }
    }
    assert_eq!(back, "a\"b\\c d");
}

#[test]
fn standard_start_with_other_counters_gets_no_fen_tag() {
    let g = custom("rnbqkbnr/pppppppp/8/8/8/8/PPPPPPPP/RNBQKBNR w KQkq - 0 5");
    let text = g.pgn();
    assert!(!text.contains("[FEN "));
    assert!(!text.contains("[SetUp "));
    let h = custom("7k/8/6K1/8/8/8/8/R7 w - - 0 1");
    let text = h.pgn();
    assert!(text.contains("[FEN \"7k/8/6K1/8/8/8/8/R7 w - - 0 1\"]\n"));
    assert!(text.contains("[SetUp \"1\"]\n"));
}

#[test]
fn stamps_of_clock_readings() {
    assert_eq!(stamp_of(Some(1234567890123)), "1234567890123");
    assert_eq!(stamp_of(None), "0");
    assert!(stamp().chars().all(|c| c.is_ascii_digit()));
}

#[test]
fn only_version_one_saves_are_legacy() {
    assert!(legacy_save(Some(1)));
    assert!(!legacy_save(Some(2)));
    assert!(!legacy_save(None));
}
