use vstd::prelude::*;

use ratatui::widgets::{Block, Borders, Paragraph, Wrap};

verus! {

/// The rendered height, in rows, of a message body: the number of rows its
/// text occupies once word-wrapped to `width` columns, plus the two border
/// rows of the box around it. This is the text-wrap oracle's answer; it is
/// a function of the text and the width alone.
pub uninterp spec fn wrapped_height(text: Seq<char>, width: int) -> nat;

/// Relies on ratatui's `Paragraph::line_count`: for a paragraph built from
/// the given text, word-wrapped without trimming and boxed with borders on
/// every side, it returns the number of rows needed to render in full at
/// the given width. That count depends on the text and the width alone.
#[verifier::external_body]
pub(crate) fn measure_height(text: &str, width: u16) -> (r: usize)
    ensures
        r as nat == wrapped_height(text@, width as int),
{
    Paragraph::new(text)
        .left_aligned()
        .wrap(Wrap { trim: false })
        .block(Block::default().borders(Borders::ALL))
        .line_count(width)
}

} // verus!
