//! Settings kept apart from the game: sound, piece artwork, theme following
//! and the engine executable.
use vstd::prelude::*;
use std::path::PathBuf;

verus! {

#[verifier::external_type_specification]
#[verifier::external_body]
pub struct ExPathBuf(PathBuf);

/// The two sets of piece artwork.
#[derive(Clone, Copy, Debug, PartialEq, Eq, Structural)]
pub enum PieceStyle {
    AfterHours,
    Chisel,
}

impl Default for PieceStyle {
    fn default() -> (r: PieceStyle)
        ensures
            r == PieceStyle::AfterHours,
    {
        PieceStyle::AfterHours
    }
}

impl PieceStyle {
    pub open spec fn spec_label(self) -> Seq<char> {
        match self {
            PieceStyle::AfterHours => "After Hours"@,
            PieceStyle::Chisel => "Chisel"@,
        }
    }

    /// The name shown for the style.
    pub fn label(self) -> (r: &'static str)
        ensures
            r@ == self.spec_label(),
    {
        match self {
            PieceStyle::AfterHours => "After Hours",
            PieceStyle::Chisel => "Chisel",
        }
    }
}

/// The settings of version 1.
#[derive(Clone, Debug, PartialEq, Eq)]
pub struct Preferences {
    pub version: u32,
    pub sound: bool,
    pub piece_style: PieceStyle,
    pub follow_omarchy: bool,
    pub engine_path: Option<PathBuf>,
}

impl Default for Preferences {
    /// Version 1, sound off, After Hours pieces, following Omarchy, no engine chosen.
    fn default() -> (r: Preferences)
        ensures
            r.version == 1,
            !r.sound,
            r.piece_style == PieceStyle::AfterHours,
            r.follow_omarchy,
            r.engine_path is None,
    {
        Preferences {
            version: 1,
            sound: false,
            piece_style: PieceStyle::AfterHours,
            follow_omarchy: true,
            engine_path: None,
        }
    }
}

impl Preferences {
    /// Accepts settings read from disk only in version 1.
    pub fn checked(self) -> (r: Result<Preferences, String>)
        ensures
            self.version == 1 ==> r == Ok::<Preferences, String>(self),
            self.version != 1 ==> r is Err && r->Err_0@ == "Unsupported settings version"@,
    {
        if self.version != 1 {
            return Err(String::from_str("Unsupported settings version"));
        }
        Ok(self)
    }
}

} // verus!
