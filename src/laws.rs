use vstd::prelude::*;
use crate::svg::{
    declared_height, doc_height, doc_paths, line_pen_y, path_element, row_paths, svg_document,
    GlyphInfoWithSvgPath, BASE_LINE, LINE_HEIGHT,
};

verus! {

/// Adding a codepoint twice has the effect of adding it once; deleting it after
/// adding it leaves it out; deleting a codepoint that is absent changes nothing.
pub proof fn lemma_add_idempotent(s: Set<u32>, c: u32)
    ensures
        s.union(seq![c].to_set()).union(seq![c].to_set()) == s.union(seq![c].to_set()),
        s.union(seq![c].to_set()).contains(c),
        !s.union(seq![c].to_set()).difference(seq![c].to_set()).contains(c),
        !s.contains(c) ==> s.difference(seq![c].to_set()) == s,
{
    assert(seq![c].to_set() =~= set![c]) by {
        assert(seq![c][0] == c);
    }
    assert(s.union(set![c]).union(set![c]) =~= s.union(set![c]));
    if !s.contains(c) {
        assert(s.difference(set![c]) =~= s);
    }
}

/// Inverting a cleared selection selects every value.
pub proof fn lemma_invert_of_empty_is_all()
    ensures
        Set::<u32>::full().difference(Set::<u32>::empty()) == Set::<u32>::full(),
{
    assert(Set::<u32>::full().difference(Set::<u32>::empty()) =~= Set::<u32>::full());
}

/// Laying out the same rows twice gives the same document.
pub proof fn lemma_layout_deterministic(
    a: Seq<Seq<GlyphInfoWithSvgPath>>,
    b: Seq<Seq<GlyphInfoWithSvgPath>>,
)
    requires
        a == b,
    ensures
        svg_document(a) == svg_document(b),
{
}

/// The path groups of a document, one per line, each laid out at its line's pen height.
pub open spec fn line_groups(rows: Seq<Seq<GlyphInfoWithSvgPath>>) -> Seq<Seq<char>> {
    Seq::new(rows.len(), |i: int| row_paths(rows[i], line_pen_y(i)))
}

/// A document of `k` lines holds exactly `k` groups of path elements, one per line in
/// order; its bounding box is `k` line heights tall, and its declared height adds the
/// margin to that.
pub proof fn lemma_line_count(rows: Seq<Seq<GlyphInfoWithSvgPath>>)
    ensures
        line_groups(rows).len() == rows.len(),
        doc_paths(rows) == line_groups(rows).flatten(),
        rows.len() > 0 ==> doc_height(rows) == LINE_HEIGHT * rows.len(),
        rows.len() > 0 ==> declared_height(rows) == LINE_HEIGHT * rows.len() + BASE_LINE,
    decreases rows.len(),
{
    line_groups(rows).lemma_flatten_and_flatten_alt_are_equivalent();
    if rows.len() > 0 {
        lemma_line_count(rows.drop_last());
        line_groups(rows.drop_last()).lemma_flatten_and_flatten_alt_are_equivalent();
        assert(line_groups(rows).drop_last() =~= line_groups(rows.drop_last()));
    } else {
        assert(line_groups(rows) =~= Seq::<Seq<char>>::empty());
    }
}

/// `s` ends with `t`.
pub open spec fn ends_with(s: Seq<char>, t: Seq<char>) -> bool {
    s.len() >= t.len() && s.subrange(s.len() - t.len(), s.len() as int) == t
}

/// Some row holds a glyph.
pub open spec fn has_glyph(rows: Seq<Seq<GlyphInfoWithSvgPath>>) -> bool {
    exists|i: int| 0 <= i < rows.len() && #[trigger] rows[i].len() > 0
}

proof fn lemma_paths_end(rows: Seq<Seq<GlyphInfoWithSvgPath>>)
    ensures
        has_glyph(rows) ==> ends_with(doc_paths(rows), "</path>"@),
        !has_glyph(rows) ==> doc_paths(rows) == Seq::<char>::empty(),
    decreases rows.len(),
{
    reveal_strlit("</path>");
    reveal_strlit("\"></path>");
    if rows.len() > 0 {
        let init = rows.drop_last();
        lemma_paths_end(init);
        assert(forall|i: int| 0 <= i < init.len() ==> init[i] == rows[i]);
        let last = rows.last();
        if last.len() > 0 {
            let pe = path_element(
                crate::svg::row_width(last.drop_last()),
                line_pen_y(rows.len() - 1) + last.last().position_spec().y_advance,
                last.last().path_spec(),
            );
            let d = doc_paths(rows);
            assert(ends_with(pe, "</path>"@)) by {
                assert(pe.subrange(pe.len() - 7, pe.len() as int) =~= "</path>"@);
            }
            assert(d.subrange(d.len() - 7, d.len() as int) =~= "</path>"@) by {
                let rp = row_paths(last, line_pen_y(rows.len() - 1));
                assert(rp == row_paths(last.drop_last(), line_pen_y(rows.len() - 1)) + pe);
                assert(d.subrange(d.len() - 7, d.len() as int) =~= pe.subrange(
                    pe.len() - 7,
                    pe.len() as int,
                ));
            }
        } else {
            assert(row_paths(last, line_pen_y(rows.len() - 1)) == Seq::<char>::empty());
            assert(doc_paths(rows) =~= doc_paths(init));
            if has_glyph(rows) {
                let i = choose|i: int| 0 <= i < rows.len() && #[trigger] rows[i].len() > 0;
                assert(init[i].len() > 0);
            }
            if has_glyph(init) {
                let i = choose|i: int| 0 <= i < init.len() && #[trigger] init[i].len() > 0;
                assert(rows[i].len() > 0);
            }
        }
    } else {
        assert(!has_glyph(rows));
    }
}

/// A document always starts with the opening of its root element and ends with its
/// closing tag; a path element stands just before that closing tag exactly when some
/// line holds a glyph.
pub proof fn lemma_document_envelope(rows: Seq<Seq<GlyphInfoWithSvgPath>>)
    ensures
        svg_document(rows).len() >= 10,
        svg_document(rows).take(4) == "<svg"@,
        ends_with(svg_document(rows), "</svg>"@),
        ends_with(svg_document(rows), "</path></svg>"@) <==> has_glyph(rows),
{
    reveal_strlit("</path></svg>");
    reveal_strlit("</path>");
    reveal_strlit("\">");
    reveal_strlit("<svg");
    reveal_strlit("</svg>");
    reveal_strlit(
        "<svg xmlns=\"http://www.w3.org/2000/svg\" xmlns:xlink=\"http://www.w3.org/1999/xlink\" width=\"",
    );
    let d = svg_document(rows);
    let head = crate::svg::svg_open();
    assert(d.take(4) =~= "<svg"@) by {
        assert(d.take(4) =~= head.take(4));
    }
    assert(d.subrange(d.len() - 6, d.len() as int) =~= "</svg>"@);
    lemma_paths_end(rows);
    let p = doc_paths(rows);
    let q = d.take(d.len() - 6);
    assert(q.subrange(q.len() - p.len(), q.len() as int) =~= p);
    if has_glyph(rows) {
        assert(d.subrange(d.len() - 13, d.len() as int) =~= "</path></svg>"@) by {
            assert(p.subrange(p.len() - 7, p.len() as int) =~= "</path>"@);
            let t = "</path></svg>"@;
            let tail = d.subrange(d.len() - 6, d.len() as int);
            let r = q.subrange(q.len() - p.len(), q.len() as int);
            assert forall|k: int| 0 <= k < 13 implies #[trigger] d.subrange(
                d.len() - 13,
                d.len() as int,
            )[k] == t[k] by {
                if k < 7 {
                    assert(d[d.len() - 13 + k] == r[p.len() - 7 + k]);
                    assert(r[p.len() - 7 + k] == p.subrange(p.len() - 7, p.len() as int)[k]);
                } else {
                    assert(d[d.len() - 13 + k] == tail[k - 7]);
                }
            }
        }
    } else {
        assert(d[d.len() - 8] == '"');
        if ends_with(d, "</path></svg>"@) {
            assert(d.subrange(d.len() - 13, d.len() as int)[5] == d[d.len() - 8]);
        }
    }
}

} // verus!
