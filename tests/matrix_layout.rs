use termrender::layout::matrix_grid_text;

fn entries(items: [&str; 9]) -> Vec<String> {
    items.iter().map(|s| s.to_string()).collect()
}

#[test]
fn columns_pad_to_longest_entry() {
    let text = matrix_grid_text(&entries(["1", "0", "-2", "10", "5", "0", "0", "0", "1"]));
    assert_eq!(
        text,
        "--       --\n| 1  0 -2 |\n| 10 5 0  |\n| 0  0 1  |\n--       --"
    );
}

#[test]
fn identity_layout() {
    let text = matrix_grid_text(&entries(["1", "0", "0", "0", "1", "0", "0", "0", "1"]));
    assert_eq!(text, "--     --\n| 1 0 0 |\n| 0 1 0 |\n| 0 0 1 |\n--     --");
}

#[test]
fn empty_entries_still_frame() {
    let text = matrix_grid_text(&entries(["", "", "", "", "", "", "", "", ""]));
    assert_eq!(text, "--  --\n|    |\n|    |\n|    |\n--  --");
}
