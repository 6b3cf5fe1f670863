//! Presentation helpers of the terminal front end that are pure: the file
//! icon and the displayed file name. The prompting itself lives in the
//! surrounding application.
use vstd::prelude::*;

use crate::dto::{FileDto, FileType};

verus! {

/// The terminal front end's settings: whether glyphs of a nerd font may be
/// printed.
#[derive(Clone, Copy, Debug)]
pub struct PromptUI {
    pub use_nerd_fonts: bool,
}

impl Default for PromptUI {
    fn default() -> (r: Self)
        ensures
            r.use_nerd_fonts == true,
    {
        PromptUI { use_nerd_fonts: true }
    }
}

/// The icon shown for a file category: a nerd-font glyph, or nothing when
/// those are switched off.
pub open spec fn spec_file_icon(use_nerd_fonts: bool, t: FileType) -> Seq<char> {
    if !use_nerd_fonts {
        ""@
    } else {
        match t {
            FileType::Image => "\u{f021f}"@,
            FileType::Video => "\u{f022b}"@,
            FileType::Pdf => "\u{f0227}"@,
            FileType::Text => "\u{f0219}"@,
            FileType::Apk => "\u{f0032}"@,
            FileType::Other => "\u{f0214}"@,
        }
    }
}

impl PromptUI {
    /// The icon shown for a file category.
    pub fn file_icon(&self, file_type: &FileType) -> (r: &'static str)
        ensures
            r@ == spec_file_icon(self.use_nerd_fonts, *file_type),
    {
        if !self.use_nerd_fonts {
            return "";
        }
        match file_type {
            FileType::Image => "\u{f021f}",
            FileType::Video => "\u{f022b}",
            FileType::Pdf => "\u{f0227}",
            FileType::Text => "\u{f0219}",
            FileType::Apk => "\u{f0032}",
            FileType::Other => "\u{f0214}",
        }
    }

    /// A file's display name: its icon, a space, and its name.
    pub fn file_name(&self, file: &FileDto) -> (r: String)
        ensures
            r@ == spec_file_icon(self.use_nerd_fonts, file.file_type) + " "@ + file.file_name@,
    {
        let mut s = String::from_str(self.file_icon(&file.file_type));
        s.append(" ");
        s.append(file.file_name.as_str());
        proof {
            assert(s@ =~= spec_file_icon(self.use_nerd_fonts, file.file_type) + " "@
                + file.file_name@);
        }
        s
    }
}

} // verus!
