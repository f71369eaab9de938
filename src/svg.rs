use vstd::prelude::*;
use crate::decimal::{int_text, write_int};

verus! {

/// Vertical distance between two laid-out lines, in document units.
pub const LINE_HEIGHT: i128 = 100;

/// Margin added to each axis of the bounding box for the document's declared size.
pub const BASE_LINE: i128 = 24;

/// Horizontal and vertical scale a font is set to before a line is shaped.
pub const SHAPING_X_SCALE: i32 = 100;

/// Vertical scale for shaping: negative, so that Y grows downwards in the document.
pub const SHAPING_Y_SCALE: i32 = -100;

/// Advance and offset of one shaped glyph, in the units of the font's scale.
#[derive(Clone, Copy, Debug, PartialEq, Eq, Structural)]
pub struct GlyphPosition {
    pub x_advance: i32,
    pub y_advance: i32,
    pub x_offset: i32,
    pub y_offset: i32,
}

impl GlyphPosition {
    pub fn new(x_advance: i32, y_advance: i32, x_offset: i32, y_offset: i32) -> (r: GlyphPosition)
        ensures
            r.x_advance == x_advance,
            r.y_advance == y_advance,
            r.x_offset == x_offset,
            r.y_offset == y_offset,
    {
        GlyphPosition { x_advance, y_advance, x_offset, y_offset }
    }
}

/// One shaped glyph: its outline as SVG path commands and its position.
#[derive(Debug)]
pub struct GlyphInfoWithSvgPath {
    svg_path: String,
    position: GlyphPosition,
}

impl GlyphInfoWithSvgPath {
    pub closed spec fn path_spec(&self) -> Seq<char> {
        self.svg_path@
    }

    pub closed spec fn position_spec(&self) -> GlyphPosition {
        self.position
    }

    pub fn new(svg_path: String, position: GlyphPosition) -> (r: GlyphInfoWithSvgPath)
        ensures
            r.path_spec() == svg_path@,
            r.position_spec() == position,
    {
        GlyphInfoWithSvgPath { svg_path, position }
    }

    pub fn svg_path(&self) -> (r: &String)
        ensures
            r@ == self.path_spec(),
    {
        &self.svg_path
    }

    pub fn position(&self) -> (r: GlyphPosition)
        ensures
            r == self.position_spec(),
    {
        self.position
    }
}

/// The rows of a document, each as the sequence of its glyphs.
pub open spec fn rows_view(rows: Seq<Vec<GlyphInfoWithSvgPath>>) -> Seq<Seq<GlyphInfoWithSvgPath>> {
    rows.map_values(|r: Vec<GlyphInfoWithSvgPath>| r@)
}

/// Pen position after a row: the sum of its glyphs' horizontal advances.
pub open spec fn row_width(row: Seq<GlyphInfoWithSvgPath>) -> int
    decreases row.len(),
{
    if row.len() == 0 {
        0
    } else {
        row_width(row.drop_last()) + row.last().position_spec().x_advance
    }
}

/// One path element, translated to `(x, y)`.
pub open spec fn path_element(x: int, y: int, d: Seq<char>) -> Seq<char> {
    "<path transform=\"translate("@ + int_text(x) + " "@ + int_text(y) + ")\" d=\""@ + d
        + "\"></path>"@
}

/// The path elements of one row laid out on the line whose pen height is `pen_y`:
/// each glyph stands at the pen, lowered by its vertical advance, and moves the pen
/// right by its horizontal advance.
pub open spec fn row_paths(row: Seq<GlyphInfoWithSvgPath>, pen_y: int) -> Seq<char>
    decreases row.len(),
{
    if row.len() == 0 {
        Seq::empty()
    } else {
        row_paths(row.drop_last(), pen_y) + path_element(
            row_width(row.drop_last()),
            pen_y + row.last().position_spec().y_advance,
            row.last().path_spec(),
        )
    }
}

/// Pen height of the line with index `i` (counted from zero).
pub open spec fn line_pen_y(i: int) -> int {
    LINE_HEIGHT * (i + 1)
}

/// The path elements of all rows, one group per row, in order.
pub open spec fn doc_paths(rows: Seq<Seq<GlyphInfoWithSvgPath>>) -> Seq<char>
    decreases rows.len(),
{
    if rows.len() == 0 {
        Seq::empty()
    } else {
        doc_paths(rows.drop_last()) + row_paths(rows.last(), line_pen_y(rows.len() - 1))
    }
}

/// Width of the bounding box: the widest row, and never less than zero.
pub open spec fn doc_width(rows: Seq<Seq<GlyphInfoWithSvgPath>>) -> int
    decreases rows.len(),
{
    if rows.len() == 0 {
        0
    } else {
        let w = doc_width(rows.drop_last());
        let r = row_width(rows.last());
        if r > w {
            r
        } else {
            w
        }
    }
}

/// Height of the bounding box: the pen height of the last line, zero without lines.
pub open spec fn doc_height(rows: Seq<Seq<GlyphInfoWithSvgPath>>) -> int {
    if rows.len() == 0 {
        0
    } else {
        line_pen_y(rows.len() - 1)
    }
}

/// Declared width of the document: the bounding box's width plus the margin.
pub open spec fn declared_width(rows: Seq<Seq<GlyphInfoWithSvgPath>>) -> int {
    doc_width(rows) + BASE_LINE
}

/// Declared height of the document: the bounding box's height plus the margin.
pub open spec fn declared_height(rows: Seq<Seq<GlyphInfoWithSvgPath>>) -> int {
    doc_height(rows) + BASE_LINE
}

/// Opening of the document root element, up to its width.
pub open spec fn svg_open() -> Seq<char> {
    "<svg xmlns=\"http://www.w3.org/2000/svg\" xmlns:xlink=\"http://www.w3.org/1999/xlink\" width=\""@
}

/// The document laid out from shaped rows: its declared width and height, and its
/// view box, are the bounding box grown by the margin on each axis.
pub open spec fn svg_document(rows: Seq<Seq<GlyphInfoWithSvgPath>>) -> Seq<char> {
    let w = declared_width(rows);
    let h = declared_height(rows);
    svg_open() + int_text(w) + "\" height=\""@ + int_text(h) + "\" viewBox=\"0 0 "@ + int_text(w)
        + " "@ + int_text(h) + "\">"@
        + doc_paths(rows) + "</svg>"@
}

proof fn lemma_row_width_bound(row: Seq<GlyphInfoWithSvgPath>)
    ensures
        -row.len() * 0x8000_0000 <= row_width(row) <= row.len() * 0x8000_0000,
    decreases row.len(),
{
    if row.len() > 0 {
        lemma_row_width_bound(row.drop_last());
    }
}

fn write_path_element(out: &mut String, x: i128, y: i128, d: &String)
    requires
        x > i128::MIN,
        y > i128::MIN,
    ensures
        final(out)@ == old(out)@ + path_element(x as int, y as int, d@),
{
    out.append("<path transform=\"translate(");
    write_int(out, x);
    out.append(" ");
    write_int(out, y);
    out.append(")\" d=\"");
    out.append(d.as_str());
    out.append("\"></path>");
    proof {
        assert(out@ =~= old(out)@ + path_element(x as int, y as int, d@));
    }
}

/// Appends the path elements of one row, laid out on the line at pen height `pen_y`,
/// and returns the pen position at the end of the row.
fn write_row(out: &mut String, row: &Vec<GlyphInfoWithSvgPath>, pen_y: i128) -> (pen_x: i128)
    requires
        0 <= pen_y <= 0x1_0000_0000_0000_0000_0000_0000,
    ensures
        pen_x == row_width(row@),
        final(out)@ == old(out)@ + row_paths(row@, pen_y as int),
{
    let mut pen_x: i128 = 0;
    let mut j: usize = 0;
    while j < row.len()
        invariant
            j <= row@.len(),
            0 <= pen_y <= 0x1_0000_0000_0000_0000_0000_0000,
            pen_x == row_width(row@.take(j as int)),
            out@ == old(out)@ + row_paths(row@.take(j as int), pen_y as int),
        decreases row@.len() - j,
    {
        let g = &row[j];
        proof {
            lemma_row_width_bound(row@.take(j as int));
            assert(row@.take(j as int + 1).drop_last() =~= row@.take(j as int));
            assert(row@.take(j as int + 1).last() == row@[j as int]);
        }
        let y = pen_y + g.position.y_advance as i128;
        write_path_element(out, pen_x, y, &g.svg_path);
        pen_x = pen_x + g.position.x_advance as i128;
        j = j + 1;
        proof {
            assert(out@ =~= old(out)@ + row_paths(row@.take(j as int), pen_y as int));
        }
    }
    proof {
        assert(row@.take(j as int) =~= row@);
    }
    pen_x
}

/// A font as the layout engine sees it: the scale it is shaped at.
#[derive(Debug)]
pub struct Font {
    x_scale: i32,
    y_scale: i32,
}

impl Font {
    pub closed spec fn scale_spec(&self) -> (i32, i32) {
        (self.x_scale, self.y_scale)
    }

    pub fn new(x_scale: i32, y_scale: i32) -> (r: Font)
        ensures
            r.scale_spec() == (x_scale, y_scale),
    {
        Font { x_scale, y_scale }
    }

    pub fn scale(&self) -> (r: (i32, i32))
        ensures
            r == self.scale_spec(),
    {
        (self.x_scale, self.y_scale)
    }

    pub fn set_scale(&mut self, x_scale: i32, y_scale: i32)
        ensures
            final(self).scale_spec() == (x_scale, y_scale),
    {
        self.x_scale = x_scale;
        self.y_scale = y_scale;
    }

    /// Sets the font to the shaping scale (100 by -100, so that Y grows downwards) and
    /// pairs the glyph positions that shaping a line produced with the outlines of
    /// those glyphs, in shaping order.
    pub fn sharp_text_to_glyphs(&mut self, positions: &Vec<GlyphPosition>, svg_paths: &Vec<String>) -> (r: Vec<
        GlyphInfoWithSvgPath,
    >)
        requires
            positions@.len() == svg_paths@.len(),
        ensures
            final(self).scale_spec() == (SHAPING_X_SCALE, SHAPING_Y_SCALE),
            r@.len() == positions@.len(),
            forall|i: int|
                0 <= i < r@.len() ==> (#[trigger] r@[i]).path_spec() == svg_paths@[i]@
                    && r@[i].position_spec() == positions@[i],
    {
        self.set_scale(SHAPING_X_SCALE, SHAPING_Y_SCALE);
        let mut result: Vec<GlyphInfoWithSvgPath> = Vec::new();
        let mut i: usize = 0;
        while i < positions.len()
            invariant
                i <= positions@.len(),
                positions@.len() == svg_paths@.len(),
                result@.len() == i,
                forall|k: int|
                    0 <= k < i ==> (#[trigger] result@[k]).path_spec() == svg_paths@[k]@
                        && result@[k].position_spec() == positions@[k],
            decreases positions@.len() - i,
        {
            let path = svg_paths[i].clone();
            result.push(GlyphInfoWithSvgPath::new(path, positions[i]));
            i = i + 1;
        }
        result
    }

    /// Lays shaped rows out as one SVG document.
    ///
    /// Each row is a line of the text; line `i` stands at pen height `100 * (i + 1)`.
    /// Each glyph becomes one path element at the pen, lowered by its vertical advance,
    /// and moves the pen right by its horizontal advance. The declared width and height,
    /// and the view box, are the bounding box of all lines with a margin added to each
    /// axis. Text always splits into at least one line, so at least one row is given.
    pub fn render_svg_text(&self, rows: &Vec<Vec<GlyphInfoWithSvgPath>>) -> (r: String)
        requires
            rows@.len() >= 1,
        ensures
            r@ == svg_document(rows_view(rows@)),
    {
        let ghost rv = rows_view(rows@);
        let mut paths = String::new();
        let mut max_width: i128 = 0;
        let mut pen_y: i128 = LINE_HEIGHT;
        let mut max_height: i128 = 0;
        let mut i: usize = 0;
        while i < rows.len()
            invariant
                i <= rows@.len(),
                rv == rows_view(rows@),
                rv.len() == rows@.len(),
                forall|k: int| 0 <= k < rows@.len() ==> #[trigger] rv[k] == rows@[k]@,
                0 <= max_width <= usize::MAX * 0x8000_0000,
                pen_y == line_pen_y(i as int),
                max_height == doc_height(rv.take(i as int)),
                max_width == doc_width(rv.take(i as int)),
                paths@ == doc_paths(rv.take(i as int)),
            decreases rows@.len() - i,
        {
            let row = &rows[i];
            let ghost before = paths@;
            let w = write_row(&mut paths, row, pen_y);
            let n = row.len();
            proof {
                assert(rv.take(i as int + 1).drop_last() =~= rv.take(i as int));
                assert(rv.take(i as int + 1).last() == row@);
                lemma_row_width_bound(row@);
                assert(row@.len() * 0x8000_0000 <= usize::MAX * 0x8000_0000) by (nonlinear_arith)
                    requires row@.len() == n as int;
            }
            if w > max_width {
                max_width = w;
            }
            max_height = pen_y;
            pen_y = pen_y + LINE_HEIGHT;
            i = i + 1;
        }
        proof {
            assert(rv.take(i as int) =~= rv);
        }
        let mut out = String::new();
        out.append("<svg xmlns=\"http://www.w3.org/2000/svg\" xmlns:xlink=\"http://www.w3.org/1999/xlink\" width=\"");
        write_int(&mut out, max_width + BASE_LINE);
        out.append("\" height=\"");
        write_int(&mut out, max_height + BASE_LINE);
        out.append("\" viewBox=\"0 0 ");
        write_int(&mut out, max_width + BASE_LINE);
        out.append(" ");
        write_int(&mut out, max_height + BASE_LINE);
        out.append("\">");
        out.append(paths.as_str());
        out.append("</svg>");
        proof {
            assert(out@ =~= svg_document(rv));
        }
        out
    }
}

} // verus!
