use vstd::prelude::*;

verus! {

/// How pixels are rendered: glyphs alone, or glyphs that carry the sampled colour.
#[derive(Clone, Copy, Debug, PartialEq, Eq, Structural)]
pub enum Mode {
    Gray,
    Color,
}

/// How many distinct glyphs the luminance range is spread over.
#[derive(Clone, Copy, Debug, PartialEq, Eq, Structural)]
pub enum DetailLevel {
    Basic,
    Detailed,
}

/// The sink that consumes the glyph frames of a run.
#[derive(Clone, Copy, Debug, PartialEq, Eq, Structural)]
pub enum Output {
    Play,
    Encode,
}

/// The configuration of one run, fixed before any stage starts.
#[derive(Clone, Debug)]
pub struct Arguments {
    /// The video to read, with its file extension.
    pub path: String,
    pub mode: Mode,
    pub detail_level: DetailLevel,
    /// Where to write the re-encoded video; without it the video plays in the terminal.
    pub output_path: Option<String>,
}

impl Arguments {
    /// The sink is the encoder exactly when an output destination was configured.
    pub open spec fn spec_rendering_mode(&self) -> Output {
        if self.output_path is Some {
            Output::Encode
        } else {
            Output::Play
        }
    }

    pub fn get_rendering_mode(&self) -> (output: Output)
        ensures
            output == self.spec_rendering_mode(),
    {
        match &self.output_path {
            Some(_) => Output::Encode,
            None => Output::Play,
        }
    }
}

} // verus!
