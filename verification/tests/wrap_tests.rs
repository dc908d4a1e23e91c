use classpath_surfer::wrap::{LINE_NUM_WIDTH, code_width, expand_tabs_str, gutter, wrap_line};

fn pieces(items: &[(usize, &str)]) -> Vec<(usize, String)> {
    items.iter().map(|(s, t)| (*s, t.to_string())).collect()
}

fn rows(items: &[&[(usize, &str)]]) -> Vec<Vec<(usize, String)>> {
    items.iter().map(|r| pieces(r)).collect()
}

#[test]
fn code_width_leaves_room_for_the_gutter() {
    assert_eq!(LINE_NUM_WIDTH, 7);
    assert_eq!(code_width(80), 73);
    assert_eq!(code_width(7), 0);
    assert_eq!(code_width(3), 0);
}

#[test]
fn wrap_line_without_room_keeps_the_line() {
    let line = pieces(&[(0, "public class Foo {")]);
    assert_eq!(wrap_line(&line, 5), vec![line.clone()]);
}

#[test]
fn wrap_line_keeps_a_line_that_fits() {
    let line = pieces(&[(0, "int x"), (1, " = 1;")]);
    assert_eq!(wrap_line(&line, 17), vec![line.clone()]);
    let empty: Vec<(usize, String)> = Vec::new();
    assert_eq!(wrap_line(&empty, 20), vec![empty.clone()]);
}

#[test]
fn wrap_line_splits_a_piece_at_the_width() {
    let line = pieces(&[(0, "abcdef"), (1, "gh")]);
    assert_eq!(wrap_line(&line, 11), rows(&[&[(0, "abcd")], &[(0, "ef"), (1, "gh")]]));
}

#[test]
fn wrap_line_closes_a_full_row_before_the_next_piece() {
    let line = pieces(&[(0, "abcd"), (1, "xy")]);
    assert_eq!(wrap_line(&line, 11), rows(&[&[(0, "abcd")], &[(1, "xy")]]));
}

#[test]
fn wrap_line_counts_bytes_and_cuts_at_characters() {
    let line = pieces(&[(3, "éééééé")]);
    assert_eq!(wrap_line(&line, 11), rows(&[&[(3, "éééé")], &[(3, "éé")]]));
}

#[test]
fn wrap_line_keeps_every_character_in_order() {
    let line = pieces(&[(0, "fun "), (1, "veryLongFunctionName"), (2, "(x: Int)"), (3, ": Unit")]);
    let wrapped = wrap_line(&line, 17);
    assert!(wrapped.len() > 1);
    let joined: Vec<(usize, char)> =
        wrapped.iter().flatten().flat_map(|(s, t)| t.chars().map(move |c| (*s, c))).collect();
    let original: Vec<(usize, char)> = line.iter().flat_map(|(s, t)| t.chars().map(move |c| (*s, c))).collect();
    assert_eq!(joined, original);
    for row in &wrapped {
        assert!(row.iter().map(|(_, t)| t.chars().count()).sum::<usize>() <= 10);
    }
}

#[test]
fn gutter_right_aligns_the_line_number() {
    assert_eq!(gutter(1), "   1 │ ");
    assert_eq!(gutter(42), "  42 │ ");
    assert_eq!(gutter(12345), "12345 │ ");
    assert_eq!(gutter(7).chars().count(), LINE_NUM_WIDTH);
}

#[test]
fn expand_tabs_uses_four_spaces() {
    assert_eq!(expand_tabs_str("\tint x;\t// y"), "    int x;    // y");
    assert_eq!(expand_tabs_str("plain"), "plain");
}

#[test]
fn continuation_gutter_keeps_the_separator() {
    assert_eq!(classpath_surfer::wrap::continuation_gutter(), "     │ ");
    assert_eq!(classpath_surfer::wrap::continuation_gutter().chars().count(), LINE_NUM_WIDTH);
}
