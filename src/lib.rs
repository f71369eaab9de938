//! Font subsetting configuration and text-to-SVG layout over shaped glyph runs,
//! with codepoint sets and reference-counted resource ownership.

mod decimal;
mod laws;
mod lines;
mod owned;
mod set;
mod subset;
mod svg;

pub use decimal::{digit_char, int_text, nat_text, write_int, write_nat};
pub use laws::{
    lemma_add_idempotent, lemma_document_envelope, lemma_invert_of_empty_is_all,
    lemma_layout_deterministic, lemma_line_count, line_groups, has_glyph, ends_with,
};
pub use lines::{line_ranges, splits_lines, NEWLINE};
pub use owned::{
    count_after, lemma_count_after_push, lemma_reference_balance, releases, replay, shares,
    stays_alive, RefCount, RefOp,
};
pub use set::{sorted, u32_array_from_hb_set, HbSet};
pub use subset::Subset;
pub use svg::{
    declared_height, declared_width, doc_height, doc_paths, doc_width, line_pen_y, path_element, row_paths, row_width, rows_view,
    svg_document, svg_open, Font, GlyphInfoWithSvgPath, GlyphPosition, BASE_LINE, LINE_HEIGHT,
    SHAPING_X_SCALE, SHAPING_Y_SCALE,
};
