use vstd::prelude::*;

use crate::args::DetailLevel;

verus! {

/// The coarse ramp: ten glyphs.
pub const LOW: &'static str = "@%#*+=-:. ";

/// The fine ramp: seventy glyphs.
pub const BASIC: &'static str =
    "$@B%8&WM#*oahkbdpqwmZO0QLCJUYXzcvunxrjft/\\|()1{}[]?-_+~<>i!lI;:,\"^`'. ";

/// A ramp of glyphs, ordered by how much of a cell each one fills.
#[derive(Clone, Debug)]
pub enum AsciiCharset {
    LowDetails(String),
    BasicDetails(String),
}

impl AsciiCharset {
    /// The glyphs of the ramp, in order.
    pub open spec fn ramp(&self) -> Seq<char> {
        match self {
            AsciiCharset::LowDetails(glyphs) => glyphs@,
            AsciiCharset::BasicDetails(glyphs) => glyphs@,
        }
    }

    /// The coarse ramp.
    pub fn low() -> (charset: Self)
        ensures
            charset is LowDetails,
            charset.ramp() == LOW@,
            charset.ramp().len() == 10,
    {
        proof {
            reveal_strlit("@%#*+=-:. ");
        }
        AsciiCharset::LowDetails(LOW.to_string())
    }

    /// The fine ramp.
    pub fn basic() -> (charset: Self)
        ensures
            charset is BasicDetails,
            charset.ramp() == BASIC@,
            charset.ramp().len() == 70,
    {
        proof {
            reveal_strlit(
                "$@B%8&WM#*oahkbdpqwmZO0QLCJUYXzcvunxrjft/\\|()1{}[]?-_+~<>i!lI;:,\"^`'. ",
            );
        }
        AsciiCharset::BasicDetails(BASIC.to_string())
    }

    /// The ramp for a detail level: the coarse one for `Basic`, the fine one for
    /// `Detailed`.
    pub fn for_detail(detail_level: DetailLevel) -> (charset: Self)
        ensures
            detail_level == DetailLevel::Basic ==> charset is LowDetails && charset.ramp() == LOW@,
            detail_level == DetailLevel::Detailed ==> charset is BasicDetails && charset.ramp()
                == BASIC@,
            charset.ramp().len() > 0,
    {
        match detail_level {
            DetailLevel::Basic => Self::low(),
            DetailLevel::Detailed => Self::basic(),
        }
    }

    pub fn as_str(&self) -> (glyphs: &str)
        ensures
            glyphs@ == self.ramp(),
    {
        match self {
            AsciiCharset::LowDetails(glyphs) => glyphs.as_str(),
            AsciiCharset::BasicDetails(glyphs) => glyphs.as_str(),
        }
    }
}

} // verus!
