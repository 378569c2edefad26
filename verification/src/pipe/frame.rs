//! Frame types and cardinalities that pipeline steps consume and produce.

use vstd::prelude::*;

verus! {

#[derive(Debug, Clone, Copy, PartialEq, Eq, Hash, Structural)]
pub enum FrameType {
    ParagraphFrame,
    CitedParagraph,
    TextAnswer,
    PatchProposalArtifact,
    JsonValue,
}

#[derive(Debug, Clone, Copy, PartialEq, Eq, Hash, Structural)]
pub enum Cardinality {
    One,
    Many,
}

/// A frame type together with how many frames flow.
pub type TypedFrame = (FrameType, Cardinality);

impl FrameType {
    /// The display name of the frame type.
    pub fn as_str(&self) -> (r: &'static str)
        ensures
            r@ == frame_type_name(*self),
    {
        match self {
            FrameType::ParagraphFrame => "ParagraphFrame",
            FrameType::CitedParagraph => "CitedParagraph",
            FrameType::TextAnswer => "TextAnswer",
            FrameType::PatchProposalArtifact => "PatchProposalArtifact",
            FrameType::JsonValue => "JsonValue",
        }
    }
}

impl Cardinality {
    /// The display name of the cardinality.
    pub fn as_str(&self) -> (r: &'static str)
        ensures
            r@ == (if *self == Cardinality::One { "One"@ } else { "Many"@ }),
    {
        match self {
            Cardinality::One => "One",
            Cardinality::Many => "Many",
        }
    }
}

pub open spec fn frame_type_name(f: FrameType) -> Seq<char> {
    match f {
        FrameType::ParagraphFrame => "ParagraphFrame"@,
        FrameType::CitedParagraph => "CitedParagraph"@,
        FrameType::TextAnswer => "TextAnswer"@,
        FrameType::PatchProposalArtifact => "PatchProposalArtifact"@,
        FrameType::JsonValue => "JsonValue"@,
    }
}

} // verus!
