//! The decisions of talking UCI to an engine process: which lines of its
//! output matter, when a reply is complete, which options to set, and which
//! best move to accept. The process, threads and clocks are the application's.
use vstd::prelude::*;
use vstd::string::StringExecFns;
use crate::game::{read_move, vec_view, Difficulty, Game};
use crate::text::{
    chars_of, decimal, push_decimal, split_words, starts_with, str_eq, string_of, trim,
    trim_chars, words,
};

verus! {

/// A reply of the engine for one request: its revision, whether it was a hint,
/// and the move in UCI or an error.
#[derive(Debug)]
pub struct Answer {
    pub revision: u64,
    pub hint: bool,
    pub result: Result<String, String>,
}

/// Longest line of engine output, in bytes.
pub const MAX_LINE: usize = 65536;

/// Most `option` lines an engine may announce.
pub const MAX_OPTIONS: u32 = 256;

/// What to do with one line read from the engine.
#[derive(Debug)]
pub enum LineStep {
    /// Pass the line on to the waiting request.
    Forward(String),
    /// Drop the line.
    Ignore,
    /// Stop reading and report this error.
    Stop(String),
}

pub open spec fn is_prefix(p: Seq<char>, s: Seq<char>) -> bool {
    p.len() <= s.len() && s.take(p.len() as int) == p
}

/// Whether a trimmed engine line is one a request waits for.
pub open spec fn wanted(line: Seq<char>) -> bool {
    line == "uciok"@ || line == "readyok"@ || is_prefix("bestmove "@, line) || is_prefix(
        "option name "@,
        line,
    )
}

pub open spec fn stops_with(step: LineStep, message: Seq<char>) -> bool {
    match step {
        LineStep::Stop(e) => e@ == message,
        _ => false,
    }
}

pub open spec fn forwards(step: LineStep, line: Seq<char>) -> bool {
    match step {
        LineStep::Forward(l) => l@ == line,
        _ => false,
    }
}

/// How one read of the engine's output is handled: `read` is the number of
/// bytes read (0 at end of output), `text` their lossy UTF-8 decoding and
/// `options` the `option` lines counted so far. Returns the step and the new count.
pub fn reader_step(read: usize, text: &str, options: u32) -> (r: (LineStep, u32))
    ensures
        read == 0 ==> r.1 == options && stops_with(r.0, "Stockfish exited before returning a move."@),
        read > MAX_LINE ==> r.1 == options && stops_with(r.0, "Engine response is too large."@),
        0 < read <= MAX_LINE ==> {
            let line = trim(text@);
            let option = is_prefix("option name "@, line);
            let count = if option {
                options + 1
            } else {
                options as int
            };
            &&& r.1 == if count > MAX_OPTIONS { options as int } else { count }
            &&& if option && count > MAX_OPTIONS {
                stops_with(r.0, "Too many engine options."@)
            } else if wanted(line) {
                forwards(r.0, line)
            } else {
                r.0 is Ignore
            }
        },
{
    if read == 0 {
        return (LineStep::Stop(String::from_str("Stockfish exited before returning a move.")), options);
    }
    if read > MAX_LINE {
        return (LineStep::Stop(String::from_str("Engine response is too large.")), options);
    }
    let cs = chars_of(text);
    let line = trim_chars(cs.as_slice());
    let opt = chars_of("option name ");
    let best = chars_of("bestmove ");
    let option = starts_with(line.as_slice(), opt.as_slice());
    let mut count = options;
    if option {
        if options >= MAX_OPTIONS {
            return (LineStep::Stop(String::from_str("Too many engine options.")), options);
        }
        count = options + 1;
    }
    let s = string_of(line.as_slice());
    if str_eq(s.as_str(), "uciok") || str_eq(s.as_str(), "readyok") || starts_with(
        line.as_slice(),
        best.as_slice(),
    ) || option {
        (LineStep::Forward(s), count)
    } else {
        (LineStep::Ignore, count)
    }
}

/// Whether `line` ends a wait for `prefix`: it is `prefix` itself or starts
/// with `prefix` and a space.
pub fn completes(line: &str, prefix: &str) -> (r: bool)
    ensures
        r == (line@ == prefix@ || is_prefix(prefix@ + " "@, line@)),
{
    if str_eq(line, prefix) {
        return true;
    }
    let mut p = String::from_str(prefix);
    p.append(" ");
    let a = chars_of(line);
    let b = chars_of(p.as_str());
    starts_with(a.as_slice(), b.as_slice())
}

/// The options set before a search, with their values.
pub open spec fn option_values(skill: u8) -> Seq<(Seq<char>, nat)> {
    seq![("Threads"@, 1nat), ("Hash"@, 32nat), ("Skill Level"@, skill as nat)]
}

/// Whether the engine announced the option `name` in `lines`.
pub open spec fn announces(lines: Seq<Seq<char>>, name: Seq<char>) -> bool {
    exists|i: int| 0 <= i < lines.len() && is_prefix(
        "option name "@ + name + " type "@,
        #[trigger] lines[i],
    )
}

/// The `setoption` command for one option.
pub open spec fn setoption(name: Seq<char>, value: nat) -> Seq<char> {
    "setoption name "@ + name + " value "@ + decimal(value)
}

/// The `setoption` commands for the first `k` options, those the engine announced.
pub open spec fn option_commands(lines: Seq<Seq<char>>, skill: u8, k: nat) -> Seq<Seq<char>>
    decreases k,
{
    if k == 0 {
        seq![]
    } else {
        let (name, value) = option_values(skill)[k - 1];
        option_commands(lines, skill, (k - 1) as nat) + if announces(lines, name) {
            seq![setoption(name, value)]
        } else {
            seq![]
        }
    }
}

/// Whether one of `lines` starts with `prefix`.
fn any_starts_with(lines: &Vec<String>, prefix: &str) -> (r: bool)
    ensures
        r == exists|i: int| 0 <= i < lines@.len() && is_prefix(prefix@, #[trigger] vec_view(lines@)[i]),
{
    let p = chars_of(prefix);
    for i in 0..lines.len()
        invariant
            p@ == prefix@,
            forall|j: int| 0 <= j < i ==> !is_prefix(prefix@, #[trigger] vec_view(lines@)[j]),
    {
        let l = chars_of(lines[i].as_str());
        if starts_with(l.as_slice(), p.as_slice()) {
            assert(is_prefix(prefix@, vec_view(lines@)[i as int]));
            return true;
        }
    }
    false
}

/// The `setoption` commands sent after `uciok`: threads, hash and skill level,
/// each only when the engine announced it among `options`.
pub fn setoption_commands(options: &Vec<String>, skill: u8) -> (r: Vec<String>)
    ensures
        vec_view(r@) == option_commands(vec_view(options@), skill, 3),
{
    let names: [&str; 3] = ["Threads", "Hash", "Skill Level"];
    let values: [u8; 3] = [1, 32, skill];
    let mut r: Vec<String> = Vec::new();
    for k in 0..3
        invariant
            names@ == seq!["Threads", "Hash", "Skill Level"],
            values@ == seq![1u8, 32u8, skill],
            vec_view(r@) == option_commands(vec_view(options@), skill, k as nat),
    {
        let name = names[k];
        let value = values[k];
        let mut pat = String::from_str("option name ");
        pat.append(name);
        pat.append(" type ");
        let found = any_starts_with(options, pat.as_str());
        let ghost before = r@;
        proof {
            assert(option_values(skill)[k as int] == (name@, value as nat));
        }
        if found {
            let mut c = String::from_str("setoption name ");
            c.append(name);
            c.append(" value ");
            push_decimal(&mut c, value as u128);
            r.push(c);
            assert(vec_view(r@) =~= vec_view(before).push(setoption(name@, value as nat)));
        } else {
            assert(vec_view(r@) =~= vec_view(before) + Seq::<Seq<char>>::empty());
        }
    }
    r
}

/// The `go` command that searches for `millis` milliseconds.
pub fn go_command(millis: u64) -> (r: String)
    ensures
        r@ == "go movetime "@ + decimal(millis as nat),
{
    let mut s = String::from_str("go movetime ");
    push_decimal(&mut s, millis as u128);
    s
}

/// One exchange with the engine: commands to send, then the reply line to wait
/// for and how long.
#[derive(Debug)]
pub struct Exchange {
    pub send: Vec<String>,
    pub wait_for: String,
    pub timeout_ms: u64,
}

/// The handshake that opens a search: `uci`, answered by `uciok` within 3 s.
pub fn handshake() -> (r: Exchange)
    ensures
        vec_view(r.send@) == seq!["uci"@],
        r.wait_for@ == "uciok"@,
        r.timeout_ms == 3000,
{
    let mut send = Vec::new();
    send.push(String::from_str("uci"));
    assert(vec_view(send@) =~= seq!["uci"@]);
    Exchange { send, wait_for: String::from_str("uciok"), timeout_ms: 3000 }
}

/// The exchange after the handshake's lines `options`: the options the engine
/// announced, `ucinewgame` and `isready`, answered by `readyok` within 3 s.
pub fn setup(options: &Vec<String>, difficulty: Difficulty) -> (r: Exchange)
    ensures
        vec_view(r.send@) == option_commands(vec_view(options@), difficulty.spec_settings().0, 3)
            + seq!["ucinewgame"@, "isready"@],
        r.wait_for@ == "readyok"@,
        r.timeout_ms == 3000,
{
    let (skill, _) = difficulty.settings();
    let mut send = setoption_commands(options, skill);
    let ghost before = send@;
    send.push(String::from_str("ucinewgame"));
    send.push(String::from_str("isready"));
    assert(vec_view(send@) =~= vec_view(before) + seq!["ucinewgame"@, "isready"@]);
    Exchange { send, wait_for: String::from_str("readyok"), timeout_ms: 3000 }
}

/// The search itself: the game's position and `go` for the strength's move
/// time, answered by `bestmove` within that time and 3 s more.
pub fn go(game: &Game, difficulty: Difficulty) -> (r: Exchange)
    requires
        game.wf(),
    ensures
        vec_view(r.send@) == seq![
            game.spec_uci_position(),
            "go movetime "@ + decimal(difficulty.spec_settings().1 as nat),
        ],
        r.wait_for@ == "bestmove"@,
        r.timeout_ms == difficulty.spec_settings().1 + 3000,
{
    let (_, millis) = difficulty.settings();
    let mut send = Vec::new();
    send.push(game.uci_position());
    send.push(go_command(millis));
    assert(vec_view(send@) =~= seq![
        game.spec_uci_position(),
        "go movetime "@ + decimal(millis as nat),
    ]);
    Exchange { send, wait_for: String::from_str("bestmove"), timeout_ms: millis + 3000 }
}

/// The strength a search runs at: the strongest for a hint, else the game's.
pub fn search_difficulty(game: &Game, hint: bool) -> (r: Difficulty)
    ensures
        r == if hint {
            Difficulty::Strong
        } else {
            game.difficulty
        },
{
    if hint {
        Difficulty::Strong
    } else {
        game.difficulty
    }
}

/// The move of a search reply: the second word of its last line, which must be
/// a move in the game's current position.
pub open spec fn spec_best_move(reply: Seq<Seq<char>>, game_fen: Seq<char>) -> Result<Seq<char>, Seq<char>> {
    if reply.len() == 0 || words(reply.last()).len() < 2 {
        Err("Engine returned no move"@)
    } else {
        let text = words(reply.last())[1];
        match read_move(game_fen, text) {
            Ok(_) => Ok(text),
            Err(e) => Err(e),
        }
    }
}

/// Takes the best move out of the lines that ended with `bestmove`.
pub fn best_move(reply: &Vec<String>, game: &Game) -> (r: Result<String, String>)
    requires
        game.wf(),
    ensures
        crate::chess::res_view(r) == spec_best_move(vec_view(reply@), game.current()),
{
    if reply.len() == 0 {
        return Err(String::from_str("Engine returned no move"));
    }
    let last = chars_of(reply[reply.len() - 1].as_str());
    assert(vec_view(reply@).last() == reply@[reply.len() - 1]@);
    let ws = split_words(last.as_slice());
    if ws.len() < 2 {
        return Err(String::from_str("Engine returned no move"));
    }
    let text = string_of(ws[1].as_slice());
    match game.parse_move(text.as_str()) {
        Ok(_) => Ok(text),
        Err(e) => Err(e),
    }
}

} // verus!
