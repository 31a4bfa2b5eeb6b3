//! The style settings of one formatting run.
use vstd::prelude::*;

verus! {

/// The settings that decide the layout of the output.
#[derive(Clone, Copy, Debug)]
pub struct FormatterConfig {
    /// Maximum line length where the formatter will try to wrap the line
    pub line_length: usize,
    /// Number of spaces per indentation level
    pub tab_width: usize,
    /// Print spaces between brackets
    pub bracket_spacing: bool,
}

impl Default for FormatterConfig {
    fn default() -> (r: Self)
        ensures
            r.line_length == 80,
            r.tab_width == 4,
            !r.bracket_spacing,
    {
        FormatterConfig { line_length: 80, tab_width: 4, bracket_spacing: false }
    }
}

} // verus!
