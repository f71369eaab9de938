use font_subset_svg::{replay, write_int, RefCount, RefOp};

#[test]
fn create_share_release_balances() {
    let ops = vec![RefOp::Share, RefOp::Share, RefOp::Release, RefOp::Release, RefOp::Release];
    assert_eq!(replay(&ops), Some(0));
}

#[test]
fn unmatched_share_leaves_a_reference() {
    let ops = vec![RefOp::Share, RefOp::Release];
    assert_eq!(replay(&ops), Some(1));
    assert_eq!(replay(&vec![]), Some(1));
}

#[test]
fn use_after_destroy_is_refused() {
    let ops = vec![RefOp::Release, RefOp::Share];
    assert_eq!(replay(&ops), None);
    let ops = vec![RefOp::Release, RefOp::Release];
    assert_eq!(replay(&ops), None);
}

#[test]
fn last_release_destroys() {
    let mut rc = RefCount::create();
    rc.reference();
    assert!(!rc.dereference());
    assert!(rc.is_alive());
    assert!(rc.dereference());
    assert!(!rc.is_alive());
}

#[test]
fn decimal_text() {
    let mut s = String::new();
    write_int(&mut s, 0);
    s.push(' ');
    write_int(&mut s, -907);
    s.push(' ');
    write_int(&mut s, i128::MAX);
    assert_eq!(s, format!("0 -907 {}", i128::MAX));
}
