use font_subset_svg::{Font, GlyphInfoWithSvgPath, GlyphPosition};

const HEAD: &str = "<svg xmlns=\"http://www.w3.org/2000/svg\" xmlns:xlink=\"http://www.w3.org/1999/xlink\" ";

fn glyph(d: &str, x_advance: i32, y_advance: i32) -> GlyphInfoWithSvgPath {
    GlyphInfoWithSvgPath::new(d.to_string(), GlyphPosition::new(x_advance, y_advance, 0, 0))
}

fn line(glyphs: &[(&str, i32)]) -> Vec<GlyphInfoWithSvgPath> {
    glyphs.iter().map(|(d, x)| glyph(d, *x, 0)).collect()
}

#[test]
fn test_svg_text() {
    let font = Font::new(100, -100);
    let rows = vec![
        line(&[("M1Z", 50), ("M2Z", 48), ("M3Z", 22)]),
        line(&[("M4Z", 30), ("M5Z", 12)]),
        line(&[("M6Z", 40), ("M7Z", 61), ("M8Z", 25)]),
    ];
    let graph_str = font.render_svg_text(&rows);
    assert_eq!(graph_str.starts_with("<svg"), true);
    assert_eq!(graph_str.ends_with("</path></svg>"), true);
}

#[test]
fn two_glyphs_and_an_empty_line() {
    let font = Font::new(100, -100);
    let rows = vec![vec![glyph("M0,0Z", 50, 0), glyph("M1,1Z", 30, 5)], vec![]];
    let expected = format!(
        "{}width=\"104\" height=\"224\" viewBox=\"0 0 104 224\">\
         <path transform=\"translate(0 100)\" d=\"M0,0Z\"></path>\
         <path transform=\"translate(50 105)\" d=\"M1,1Z\"></path></svg>",
        HEAD
    );
    assert_eq!(font.render_svg_text(&rows), expected);
}

#[test]
fn one_empty_line_is_one_line_high() {
    let font = Font::new(100, -100);
    let rows: Vec<Vec<GlyphInfoWithSvgPath>> = vec![vec![]];
    let expected = format!("{}width=\"24\" height=\"124\" viewBox=\"0 0 24 124\"></svg>", HEAD);
    let doc = font.render_svg_text(&rows);
    assert_eq!(doc, expected);
    assert!(!doc.ends_with("</path></svg>"));
}

#[test]
fn widest_line_sets_the_width_and_lines_stack_down() {
    let font = Font::new(100, -100);
    let rows = vec![
        vec![glyph("a", 10, 0)],
        vec![glyph("b", 700, -3), glyph("c", 5, 0)],
        vec![glyph("d", 20, 0)],
    ];
    let expected = format!(
        "{}width=\"729\" height=\"324\" viewBox=\"0 0 729 324\">\
         <path transform=\"translate(0 100)\" d=\"a\"></path>\
         <path transform=\"translate(0 197)\" d=\"b\"></path>\
         <path transform=\"translate(700 200)\" d=\"c\"></path>\
         <path transform=\"translate(0 300)\" d=\"d\"></path></svg>",
        HEAD
    );
    assert_eq!(font.render_svg_text(&rows), expected);
}

#[test]
fn negative_advances_keep_width_at_zero() {
    let font = Font::new(100, -100);
    let rows = vec![vec![glyph("p", -30, 0), glyph("q", -12, 0)]];
    let expected = format!(
        "{}width=\"24\" height=\"124\" viewBox=\"0 0 24 124\">\
         <path transform=\"translate(0 100)\" d=\"p\"></path>\
         <path transform=\"translate(-30 100)\" d=\"q\"></path></svg>",
        HEAD
    );
    assert_eq!(font.render_svg_text(&rows), expected);
}

#[test]
fn extreme_advances_are_exact() {
    let font = Font::new(100, -100);
    let rows = vec![vec![
        glyph("x", i32::MAX, i32::MIN),
        glyph("y", i32::MAX, 0),
    ]];
    let expected = format!(
        "{}width=\"4294967318\" height=\"124\" viewBox=\"0 0 4294967318 124\">\
         <path transform=\"translate(0 -2147483548)\" d=\"x\"></path>\
         <path transform=\"translate(2147483647 100)\" d=\"y\"></path></svg>",
        HEAD
    );
    assert_eq!(font.render_svg_text(&rows), expected);
}

#[test]
fn rendering_twice_is_identical() {
    let font = Font::new(100, -100);
    let rows = vec![vec![glyph("M0Z", 12, 1)], vec![glyph("M9Z", 7, 2)]];
    assert_eq!(font.render_svg_text(&rows), font.render_svg_text(&rows));
}

#[test]
fn height_counts_lines() {
    let font = Font::new(100, -100);
    for k in 1..6usize {
        let rows: Vec<Vec<GlyphInfoWithSvgPath>> = (0..k).map(|_| vec![glyph("z", 1, 0)]).collect();
        let doc = font.render_svg_text(&rows);
        assert!(doc.contains(&format!("width=\"25\" height=\"{}\"", 100 * k + 24)));
        assert!(doc.contains(&format!("viewBox=\"0 0 25 {}\"", 100 * k + 24)));
        assert_eq!(doc.matches("<path ").count(), k);
    }
}

#[test]
fn shaping_sets_scale_and_pairs_glyphs() {
    let mut font = Font::new(1, 1);
    let positions = vec![GlyphPosition::new(10, 0, 1, 2), GlyphPosition::new(20, 3, 0, 0)];
    let paths = vec!["M1Z".to_string(), "M2Z".to_string()];
    let glyphs = font.sharp_text_to_glyphs(&positions, &paths);
    assert_eq!(font.scale(), (100, -100));
    assert_eq!(glyphs.len(), 2);
    assert_eq!(glyphs[0].svg_path(), "M1Z");
    assert_eq!(glyphs[1].svg_path(), "M2Z");
    assert_eq!(glyphs[0].position(), positions[0]);
    assert_eq!(glyphs[1].position(), positions[1]);
}

#[test]
fn set_scale_is_kept() {
    let mut font = Font::new(100, -100);
    font.set_scale(64, 32);
    assert_eq!(font.scale(), (64, 32));
}
