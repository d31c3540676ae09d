use hangman::frames::{frame_index, generate_frame, parse_frames, FrameError};

fn lines(parts: &[&str]) -> Vec<String> {
    parts.iter().map(|p| String::from(*p)).collect()
}

#[test]
fn frame_index_mapping() {
    assert_eq!(frame_index(7), 0);
    assert_eq!(frame_index(0), 7);
    assert_eq!(frame_index(8), 0);
    assert_eq!(frame_index(3), 4);
}

#[test]
fn parse_groups_lines_by_dash_boundaries() {
    let input = lines(&["a", "b", "----", "c", "----", "d"]);
    let frames = parse_frames(&input);
    assert_eq!(frames, vec![lines(&["a", "b"]), lines(&["c"]), lines(&["d"])]);
}

#[test]
fn parse_drops_empty_frames() {
    let input = lines(&["-", "-", "a", "---", "----", "b", "-"]);
    let frames = parse_frames(&input);
    assert_eq!(frames, vec![lines(&["a"]), lines(&["b"])]);
}

#[test]
fn parse_keeps_empty_lines_inside_frames() {
    let input = lines(&["a", "", "b", "-end"]);
    let frames = parse_frames(&input);
    assert_eq!(frames, vec![lines(&["a", "", "b"])]);
}

#[test]
fn parse_of_nothing_is_no_frames() {
    let frames = parse_frames(&lines(&[]));
    assert!(frames.is_empty());
    let frames = parse_frames(&lines(&["-", "--"]));
    assert!(frames.is_empty());
}

#[test]
fn compose_fails_without_frames() {
    let frames: Vec<Vec<String>> = Vec::new();
    assert_eq!(generate_frame(7, "cat", &frames), Err(FrameError::NoFrames));
}

#[test]
fn compose_fails_on_missing_frame() {
    let frames = vec![lines(&["only"])];
    assert_eq!(generate_frame(0, "cat", &frames), Err(FrameError::MissingFrame));
}

#[test]
fn compose_builds_the_full_block() {
    let frames = vec![
        lines(&["zero a", "zero b"]),
        lines(&["one"]),
        lines(&["two"]),
        lines(&["three"]),
        lines(&["four"]),
        lines(&["five"]),
        lines(&["six"]),
        lines(&["seven"]),
    ];
    let block = generate_frame(7, "cat", &frames).unwrap();
    let expected = format!(
        "{}\n{}\n{}\n{}",
        "########## Hangman ##########",
        "zero a\nzero b",
        format!("# {}cat{} #", " ".repeat(11), " ".repeat(11)),
        "########## 7 steps ##########",
    );
    assert_eq!(block, expected);
}

#[test]
fn compose_padding_splits_odd_slack_right() {
    let frames = vec![lines(&["art"])];
    let block = generate_frame(7, "word", &frames).unwrap();
    let word_line = block.lines().nth(2).unwrap();
    let expected = format!("# {}word{} #", " ".repeat(10), " ".repeat(11));
    assert_eq!(word_line, expected);
}

#[test]
fn compose_overflow_steps_use_first_frame() {
    let frames = vec![lines(&["first"]), lines(&["second"])];
    let block = generate_frame(8, "cat", &frames).unwrap();
    assert!(block.contains("\nfirst\n"));
    assert!(block.ends_with("########## 8 steps ##########"));
}

#[test]
fn compose_zero_steps_pick_last_frame() {
    let frames = vec![
        lines(&["f0"]),
        lines(&["f1"]),
        lines(&["f2"]),
        lines(&["f3"]),
        lines(&["f4"]),
        lines(&["f5"]),
        lines(&["f6"]),
        lines(&["gallows full"]),
    ];
    let block = generate_frame(0, "cat", &frames).unwrap();
    assert!(block.contains("\ngallows full\n"));
    assert!(block.ends_with("########## 0 steps ##########"));
}
