use font_subset_svg::line_ranges;

fn lines_of(text: &str) -> Vec<&str> {
    line_ranges(text).iter().map(|&(a, b)| &text[a..b]).collect()
}

#[test]
fn three_lines() {
    let text = "Hello World\nIt's me!\nliga feature fft!";
    assert_eq!(line_ranges(text), vec![(0, 11), (12, 20), (21, 38)]);
    assert_eq!(lines_of(text), text.split('\n').collect::<Vec<_>>());
}

#[test]
fn empty_text_is_one_empty_line() {
    assert_eq!(line_ranges(""), vec![(0, 0)]);
}

#[test]
fn trailing_and_repeated_newlines_give_empty_lines() {
    assert_eq!(line_ranges("a\n"), vec![(0, 1), (2, 2)]);
    assert_eq!(line_ranges("\n\nb"), vec![(0, 0), (1, 1), (2, 3)]);
}

#[test]
fn multibyte_text_splits_on_newline_bytes() {
    let text = "été\n日本";
    assert_eq!(lines_of(text), vec!["été", "日本"]);
}
