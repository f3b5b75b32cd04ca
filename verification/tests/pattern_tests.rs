use lifegrid::life::{simulate, BoundaryPolicy};
use lifegrid::pattern::{parse_plaintext, PatternError};

fn live_cells(grid: &Vec<Vec<bool>>) -> Vec<(usize, usize)> {
    let mut out = Vec::new();
    for (r, row) in grid.iter().enumerate() {
        for (c, &alive) in row.iter().enumerate() {
            if alive {
                out.push((r, c));
            }
        }
    }
    out
}

#[test]
fn vertical_blinker_is_centered_on_the_board() {
    let text = b"!Name: blinker\n.O.\n.O.\n.O.\n";
    let grid = parse_plaintext(text).unwrap();
    assert_eq!(grid.len(), 60);
    assert!(grid.iter().all(|row| row.len() == 60));
    // 3 lines of width 3: start row 30 - 1 = 29, start column 29;
    // the O sits at offset 1 of each line
    assert_eq!(live_cells(&grid), vec![(29, 30), (30, 30), (31, 30)]);
}

#[test]
fn parsed_pattern_feeds_the_simulation() {
    let grid = parse_plaintext(b".O.\n.O.\n.O.\n").unwrap();
    let next = simulate(grid, BoundaryPolicy::Toroidal).unwrap();
    assert_eq!(live_cells(&next), vec![(30, 29), (30, 30), (30, 31)]);
}

#[test]
fn surrounding_whitespace_and_blank_lines_are_ignored() {
    let text = b"  \t\n  .O.  \r\nOOO\t\n\n";
    let grid = parse_plaintext(text).unwrap();
    // two kept lines of width 3
    assert_eq!(live_cells(&grid), vec![(29, 30), (30, 29), (30, 30), (30, 31)]);
}

#[test]
fn a_full_width_pattern_reaches_the_board_edge() {
    let mut text = Vec::new();
    text.extend_from_slice(&[b'O'; 60]);
    text.push(b'\n');
    let grid = parse_plaintext(&text).unwrap();
    let cells = live_cells(&grid);
    assert_eq!(cells.len(), 60);
    // a single line: start row 30 - 0 = 30
    assert!(cells.iter().all(|&(r, _)| r == 30));
    assert!(cells.iter().enumerate().all(|(i, &(_, c))| c == i));
}

#[test]
fn an_invalid_marker_is_rejected() {
    assert_eq!(
        parse_plaintext(b".O.\n.X.\n"),
        Err(PatternError::InvalidMarker)
    );
    assert_eq!(parse_plaintext(b"O O\n"), Err(PatternError::InvalidMarker));
}

#[test]
fn text_without_pattern_lines_is_rejected() {
    assert_eq!(parse_plaintext(b""), Err(PatternError::NoLines));
    assert_eq!(parse_plaintext(b"\n\n  \n"), Err(PatternError::NoLines));
    assert_eq!(
        parse_plaintext(b"!only a comment\n! another\n"),
        Err(PatternError::NoLines)
    );
}

#[test]
fn ragged_pattern_lines_are_rejected() {
    assert_eq!(
        parse_plaintext(b".O.\n.O\n"),
        Err(PatternError::InconsistentLength)
    );
}

#[test]
fn a_pattern_wider_than_the_board_is_rejected() {
    let mut text = Vec::new();
    text.extend_from_slice(&[b'.'; 61]);
    text.push(b'\n');
    assert_eq!(parse_plaintext(&text), Err(PatternError::PatternTooLarge));
}

#[test]
fn a_pattern_taller_than_the_board_is_rejected() {
    let mut text = Vec::new();
    for _ in 0..61 {
        text.extend_from_slice(b"O\n");
    }
    assert_eq!(parse_plaintext(&text), Err(PatternError::PatternTooLarge));
}

#[test]
fn marker_errors_take_precedence_over_ragged_lines() {
    // an invalid marker somewhere rejects the text even if lengths differ
    assert_eq!(
        parse_plaintext(b".O.\nXX\n"),
        Err(PatternError::InvalidMarker)
    );
}
