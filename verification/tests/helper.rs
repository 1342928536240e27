use edtui::helper::{append_str, insert_str, skip_whitespace, skip_whitespace_rev};
use edtui::highlight::Bridge;
use edtui::{Index2, Lines};

fn test_lines() -> Lines {
    Lines::from("Hello World!\n\n123.")
}

fn bridge_for(lines: &Lines) -> Bridge {
    let mut bridge = Bridge::new("", 4);
    bridge.run(lines);
    bridge
}

#[test]
fn test_skip_whitespace() {
    let lines = Lines::from("  World!");
    let mut index = Index2::new(0, 0);

    skip_whitespace(&lines, &mut index);
    assert_eq!(index.col, 2);

    skip_whitespace(&lines, &mut index);
    assert_eq!(index.col, 2);
}

#[test]
fn test_skip_whitespace_rev() {
    let lines = Lines::from("  x World!");
    let mut index = Index2::new(0, 3);

    skip_whitespace_rev(&lines, &mut index);
    assert_eq!(index.col, 2);

    skip_whitespace_rev(&lines, &mut index);
    assert_eq!(index.col, 2);

    index.col = 1;
    skip_whitespace_rev(&lines, &mut index);
    assert_eq!(index.col, 0);
}

#[test]
fn test_insert_str() {
    let mut lines = test_lines();
    let mut index = Index2::new(0, 5);
    let mut bridge = bridge_for(&lines);

    insert_str(&mut lines, &mut index, ",\n", &mut bridge);
    assert_eq!(index, Index2::new(1, 0));
    assert_eq!(lines, Lines::from("Hello,\n World!\n\n123."));
}

#[test]
fn test_append_str() {
    let mut lines = test_lines();
    let mut index = Index2::new(0, 5);
    let mut bridge = bridge_for(&lines);

    append_str(&mut lines, &mut index, ",\n", &mut bridge);
    assert_eq!(index, Index2::new(1, 0));
    assert_eq!(lines, Lines::from("Hello ,\nWorld!\n\n123."));

    let mut lines = test_lines();
    let mut index = Index2::new(1, 0);
    let mut bridge = bridge_for(&lines);
    append_str(&mut lines, &mut index, "abc", &mut bridge);
    assert_eq!(index, Index2::new(1, 2));
    assert_eq!(lines, Lines::from("Hello World!\nabc\n123."));
}
