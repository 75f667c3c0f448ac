//! Piece artwork: which of the twelve images shows a piece, and the recolouring
//! of their accent to the theme's.
use vstd::prelude::*;
use crate::preferences::PieceStyle;
use crate::text::{chars_of, push_char, push_chars};
use crate::theme::{spec_hex, Rgb};

verus! {

/// The kinds of piece.
#[derive(Clone, Copy, Debug, PartialEq, Eq, Structural)]
pub enum PieceRole {
    Pawn,
    Knight,
    Bishop,
    Rook,
    Queen,
    King,
}

pub open spec fn role_rank(role: PieceRole) -> nat {
    match role {
        PieceRole::Pawn => 0,
        PieceRole::Knight => 1,
        PieceRole::Bishop => 2,
        PieceRole::Rook => 3,
        PieceRole::Queen => 4,
        PieceRole::King => 5,
    }
}

/// The index of a piece among the twelve images: White's six, then Black's,
/// each from pawn to king.
pub fn image_index(black: bool, role: PieceRole) -> (r: usize)
    ensures
        r == (if black { 6nat } else { 0nat }) + role_rank(role),
        r < 12,
{
    (if black { 6 } else { 0 }) + match role {
        PieceRole::Pawn => 0,
        PieceRole::Knight => 1,
        PieceRole::Bishop => 2,
        PieceRole::Rook => 3,
        PieceRole::Queen => 4,
        PieceRole::King => 5,
    }
}

/// `s` with every occurrence of `pat`, from the left and without overlap,
/// replaced by `rep`: for a non-empty `pat`, what `str::replace` gives. An
/// empty `pat` leaves `s` as it is.
pub open spec fn replace_all(s: Seq<char>, pat: Seq<char>, rep: Seq<char>) -> Seq<char>
    decreases s.len(),
{
    if pat.len() == 0 || s.len() < pat.len() {
        s
    } else if s.take(pat.len() as int) == pat {
        rep + replace_all(s.skip(pat.len() as int), pat, rep)
    } else {
        seq![s[0]] + replace_all(s.drop_first(), pat, rep)
    }
}

fn matches_at(s: &[char], i: usize, pat: &[char]) -> (r: bool)
    requires
        i <= s@.len(),
    ensures
        r == (pat@.len() <= s@.len() - i && s@.skip(i as int).take(pat@.len() as int) == pat@),
{
    if pat.len() > s.len() - i {
        return false;
    }
    let n = s.len();
    let mut k: usize = 0;
    while k < pat.len()
        invariant
            n == s@.len(),
            i <= s@.len(),
            k <= pat@.len(),
            i + pat@.len() <= s@.len(),
            forall|j: int| 0 <= j < k ==> s@[i + j] == pat@[j],
        decreases pat@.len() - k,
    {
        if s[i + k] != pat[k] {
            assert(s@.skip(i as int).take(pat@.len() as int)[k as int] == s@[i + k]);
            return false;
        }
        k = k + 1;
    }
    assert(s@.skip(i as int).take(pat@.len() as int) =~= pat@);
    true
}

/// Replaces every non-overlapping occurrence of `pat` in `s` by `rep`, from
/// the left; an empty `pat` leaves `s` as it is.
pub fn replace(s: &str, pat: &str, rep: &str) -> (r: String)
    ensures
        r@ == replace_all(s@, pat@, rep@),
{
    let cs = chars_of(s);
    let p = chars_of(pat);
    let rp = chars_of(rep);
    let mut out = String::new();
    let mut i: usize = 0;
    assert(cs@.skip(0) == cs@);
    while i < cs.len()
        invariant
            i <= cs@.len(),
            cs@ == s@,
            p@ == pat@,
            rp@ == rep@,
            out@ + replace_all(cs@.skip(i as int), p@, rp@) == replace_all(s@, pat@, rep@),
        decreases cs.len() - i,
    {
        let t = Ghost(cs@.skip(i as int));
        if p.len() > 0 && matches_at(cs.as_slice(), i, p.as_slice()) {
            push_chars(&mut out, rp.as_slice());
            assert(t@.skip(p@.len() as int) == cs@.skip(i + p@.len()));
            i = i + p.len();
        } else {
            if p.len() == 0 || cs.len() - i < p.len() {
                let ghost before = out@;
                let mut k = i;
                while k < cs.len()
                    invariant
                        i <= k <= cs@.len(),
                        out@ == before + cs@.subrange(i as int, k as int),
                    decreases cs.len() - k,
                {
                    push_char(&mut out, cs[k]);
                    assert(cs@.subrange(i as int, k + 1) == cs@.subrange(i as int, k as int).push(cs@[k as int]));
                    k = k + 1;
                }
                assert(cs@.subrange(i as int, cs@.len() as int) =~= t@);
                assert(cs@.skip(cs@.len() as int).len() == 0);
                i = cs.len();
            } else {
                push_char(&mut out, cs[i]);
                assert(t@[0] == cs@[i as int]);
                assert(t@.drop_first() == cs@.skip(i + 1));
                i = i + 1;
            }
        }
    }
    assert(cs@.skip(i as int).len() == 0);
    out
}

/// The accent colour that the artwork is drawn with.
pub open spec fn art_accent() -> Seq<char> {
    "#b3cb92"@
}

/// The twelve images of one style, recoloured to an accent.
pub struct Pieces {
    pub accent: Option<Rgb>,
    pub style: PieceStyle,
    pub images: Vec<String>,
}

impl Pieces {
    /// No artwork yet.
    pub fn new() -> (r: Pieces)
        ensures
            r.accent is None,
            r.style == PieceStyle::AfterHours,
            r.images@.len() == 0,
    {
        Pieces { accent: None, style: PieceStyle::AfterHours, images: Vec::new() }
    }

    /// Recolours the artwork of `style`, given as `artwork`, to `accent`, unless that is
    /// what it shows already; returns whether it changed.
    pub fn refresh(&mut self, accent: Rgb, style: PieceStyle, artwork: &Vec<String>) -> (r: bool)
        ensures
            r == !(old(self).accent == Some(accent) && old(self).style == style),
            !r ==> *final(self) == *old(self),
            r ==> {
                &&& final(self).accent == Some(accent)
                &&& final(self).style == style
                &&& final(self).images@.len() == artwork@.len()
                &&& forall|i: int|
                    0 <= i < artwork@.len() ==> #[trigger] final(self).images@[i]@ == replace_all(
                        artwork@[i]@,
                        art_accent(),
                        spec_hex(accent),
                    )
            },
    {
        if self.accent == Some(accent) && self.style == style {
            return false;
        }
        let colour = accent.hex();
        let mut images: Vec<String> = Vec::new();
        for i in 0..artwork.len()
            invariant
                colour@ == spec_hex(accent),
                images@.len() == i,
                forall|j: int|
                    0 <= j < i ==> #[trigger] images@[j]@ == replace_all(
                        artwork@[j]@,
                        art_accent(),
                        spec_hex(accent),
                    ),
        {
            images.push(replace(artwork[i].as_str(), "#b3cb92", colour.as_str()));
        }
        self.images = images;
        self.accent = Some(accent);
        self.style = style;
        true
    }

    /// The recoloured image of a piece, once the artwork is loaded.
    pub fn image(&self, black: bool, role: PieceRole) -> (r: Option<&str>)
        ensures
            match r {
                Some(t) => {
                    let i = (if black { 6nat } else { 0nat }) + role_rank(role);
                    i < self.images@.len() && t@ == self.images@[i as int]@
                },
                None => (if black { 6nat } else { 0nat }) + role_rank(role) >= self.images@.len(),
            },
    {
        let i = image_index(black, role);
        if i < self.images.len() {
            Some(self.images[i].as_str())
        } else {
            None
        }
    }
}

} // verus!
