use font_subset_svg::{u32_array_from_hb_set, HbSet, Subset};

#[test]
fn request_keeps_requested_codepoints_in_order() {
    let mut subset = Subset::new();
    let chars: [u32; 3] = [32, 33, 34];
    subset.input_unicode_set.add_chars(&chars);

    subset.clear_drop_table();
    subset.adjust_layout();

    let unicodes = u32_array_from_hb_set(&subset.input_unicode_set);
    for (i, &item) in chars.iter().enumerate() {
        assert_eq!(unicodes[i], item);
    }
    assert_eq!(unicodes, vec![32, 33, 34]);
}

#[test]
fn adding_twice_keeps_one_instance() {
    let mut s = HbSet::new();
    s.add_chars(&[65]);
    s.add_chars(&[65]);
    assert_eq!(u32_array_from_hb_set(&s), vec![65]);
    s.delete_chars(&[65]);
    assert!(!s.contains(65));
    assert_eq!(u32_array_from_hb_set(&s), Vec::<u32>::new());
}

#[test]
fn deleting_an_absent_codepoint_changes_nothing() {
    let mut s = HbSet::new();
    s.add_chars(&[5, 1, 3]);
    s.delete_chars(&[2, 4]);
    assert_eq!(u32_array_from_hb_set(&s), vec![1, 3, 5]);
}

#[test]
fn members_come_out_ascending() {
    let mut s = HbSet::new();
    s.add_chars(&[0x10FFFF, 0, 700, 34, 34, 33, u32::MAX]);
    assert_eq!(u32_array_from_hb_set(&s), vec![0, 33, 34, 700, 0x10FFFF, u32::MAX]);
}

#[test]
fn clear_then_invert_is_everything() {
    let mut s = HbSet::new();
    s.add_chars(&[9, 10]);
    s.clear();
    s.invert();
    assert!(s.is_inverted());
    assert!(s.contains(0));
    assert!(s.contains(9));
    assert!(s.contains(u32::MAX));
}

#[test]
fn inverted_set_add_and_delete() {
    let mut s = HbSet::new();
    s.invert();
    s.delete_chars(&[7, 8]);
    assert!(!s.contains(7));
    assert!(!s.contains(8));
    assert!(s.contains(6));
    s.add_chars(&[7]);
    assert!(s.contains(7));
    assert!(!s.contains(8));
    s.invert();
    assert!(!s.is_inverted());
    assert_eq!(u32_array_from_hb_set(&s), vec![8]);
}

#[test]
fn adjust_layout_selects_all_features_and_scripts() {
    let mut subset = Subset::new();
    subset.layout_features.add_chars(&[1]);
    subset.adjust_layout();
    assert!(subset.layout_features.contains(0x6c696761));
    assert!(subset.layout_features.contains(1));
    assert!(subset.layout_scripts.contains(0x6c61746e));
    assert!(!subset.input_unicode_set.contains(32));
}

#[test]
fn clear_drop_table_drops_nothing() {
    let mut subset = Subset::new();
    subset.drop_tables.add_chars(&[0x6b65726e, 0x44534947]);
    subset.clear_drop_table();
    assert!(!subset.drop_tables.contains(0x6b65726e));
    assert_eq!(u32_array_from_hb_set(&subset.drop_tables), Vec::<u32>::new());
}
