use pipeline_viewer::layout::{center_truncate, flip, render_columns, split_lines, GridError, RenderColumnsAlignment};
use pipeline_viewer::text::EmojiLength;

#[test]
fn test_flip() {
    let v = vec![vec![1, 2, 3], vec![3, 4, 5]];
    assert_eq!(flip(v), vec![vec![1, 3], vec![2, 4], vec![3, 5]],)
}

#[test]
fn test_render_columns_1() {
    let columns: Vec<Vec<String>> = vec![
        vec!["abc".to_string(), "123".to_string()],
        vec!["asdasdasd".to_string(), "456".to_string()],
    ];
    let rendering = render_columns(
        columns,
        vec![11, 10],
        vec![RenderColumnsAlignment::Left, RenderColumnsAlignment::Left],
    )
    .unwrap();
    assert_eq!(
        rendering,
        "abc        asdasdasd \n\
        123        456       \n"
            .to_string(),
    );
}

#[test]
fn test_render_columns_2() {
    let columns: Vec<Vec<String>> = vec![
        vec!["abc".to_string(), "123".to_string()],
        vec!["asdasdasd".to_string(), "456".to_string()],
    ];
    let rendering = render_columns(
        columns,
        vec![11, 10],
        vec![RenderColumnsAlignment::Left, RenderColumnsAlignment::Right],
    )
    .unwrap();
    assert_eq!(
        rendering,
        "abc         asdasdasd\n\
        123               456\n"
            .to_string(),
    );
}

#[test]
fn center_pads_both_sides_more_on_the_right() {
    let r = RenderColumnsAlignment::Center.align("ab".to_string(), 7, None);
    assert_eq!(r, "  ab   ");
}

#[test]
fn center_keeps_text_intact_when_it_fits() {
    let r = RenderColumnsAlignment::Center.align("hello".to_string(), 9, Some('*'));
    assert_eq!(r, "**hello**");
    assert!(r.contains("hello"));
}

#[test]
fn align_left_and_right() {
    assert_eq!(RenderColumnsAlignment::Left.align("ab".to_string(), 5, None), "ab   ");
    assert_eq!(RenderColumnsAlignment::Right.align("ab".to_string(), 5, Some('.')), "...ab");
}

#[test]
fn align_truncates_oversize_text() {
    assert_eq!(RenderColumnsAlignment::Center.align("abcdef".to_string(), 4, None), "abcd");
}

#[test]
fn align_counts_wide_characters_twice() {
    assert_eq!(RenderColumnsAlignment::Center.align("日本".to_string(), 6, None), " 日本 ");
    assert_eq!(RenderColumnsAlignment::Left.align("日本".to_string(), 3, None), "日 ");
}

#[test]
fn center_truncate_to_width() {
    assert_eq!(center_truncate(&"error".to_string(), 9), "  error  ");
    assert_eq!(center_truncate(&"error message".to_string(), 5), "error");
}

#[test]
fn width_of_plain_and_wide_text() {
    assert_eq!("abc".to_string().emoji_len(), 3);
    assert_eq!("日本語".to_string().emoji_len(), 6);
    assert_eq!("e\u{301}".to_string().emoji_len(), 1);
    assert_eq!("✅ ok".to_string().emoji_len(), 5);
    assert_eq!(String::new().emoji_len(), 0);
}

#[test]
fn truncation_keeps_whole_graphemes() {
    assert_eq!("e\u{301}xyz".to_string().emoji_truncate(1), "e\u{301}");
    assert_eq!("日本".to_string().emoji_truncate(3), "日");
    assert_eq!("日本".to_string().emoji_truncate(1), "");
    assert_eq!("abc".to_string().emoji_truncate(0), "");
    assert_eq!("abc".to_string().emoji_truncate(10), "abc");
}

#[test]
fn split_at_line_breaks() {
    assert_eq!(split_lines("a\nb"), vec!["a".to_string(), "b".to_string()]);
    assert_eq!(split_lines("a\n"), vec!["a".to_string(), String::new()]);
    assert_eq!(split_lines(""), vec![String::new()]);
}

#[test]
fn grid_is_rectangular_with_padding_rows() {
    let columns = vec![
        vec!["a\nb\nc".to_string()],
        vec!["x".to_string()],
    ];
    let r = render_columns(
        columns,
        vec![3, 2],
        vec![RenderColumnsAlignment::Center, RenderColumnsAlignment::Right],
    )
    .unwrap();
    assert_eq!(r, " a  x\n b   \n c   \n");
    for line in r.lines() {
        assert_eq!(line.chars().count(), 5);
    }
    assert_eq!(r.lines().count(), 3);
}

#[test]
fn grid_of_no_columns_is_empty() {
    assert_eq!(render_columns(vec![], vec![], vec![]).unwrap(), "");
}

#[test]
fn grid_rejects_mismatched_lengths() {
    let r = render_columns(
        vec![vec!["a".to_string()]],
        vec![3],
        vec![RenderColumnsAlignment::Center, RenderColumnsAlignment::Center],
    );
    assert_eq!(
        r,
        Err(GridError {
            columns: 1,
            widths: 1,
            alignments: 2
        })
    );
}
