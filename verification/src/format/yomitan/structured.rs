//! Structured-content schema of Yomitan glossaries (see [`crate::structured`]).

pub use crate::structured::{
    Content, ContentStyle, Data, Element, FontStyle, FontWeight, ImageAppearance, ImageElement,
    ImageElementBase, ImageRendering, LineBreakElement, LinkElement, NumberOrString, SizeUnits,
    StyledElement, TableElement, TextAlign, TextDecorationLine, TextDecorationStyle,
    UnstyledElement, VerticalAlign, WordBreak,
};
