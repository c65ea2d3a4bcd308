use lectic::header::{yaml_header, is_marker_line_at};
use lectic::segment::{find_fence, is_fence_at, skip_fences, skip_padding, skip_token};
use lectic::text::chars_of;

#[test]
fn fences_are_three_colons() {
    let chars = chars_of("a::b:::c::::");
    assert!(!is_fence_at(&chars, 0));
    assert!(!is_fence_at(&chars, 1));
    assert!(is_fence_at(&chars, 4));
    assert!(is_fence_at(&chars, 8));
    assert!(is_fence_at(&chars, 9));
    assert!(!is_fence_at(&chars, 10));
    assert!(!is_fence_at(&chars, 12));
    assert!(!is_fence_at(&chars, 99));
}

#[test]
fn a_fence_is_found_where_it_first_stands() {
    let chars = chars_of("a::b:::c::::");
    assert_eq!(find_fence(&chars, 0), 4);
    assert_eq!(find_fence(&chars, 4), 4);
    assert_eq!(find_fence(&chars, 5), 8);
    assert_eq!(find_fence(&chars, 10), 12);
    assert_eq!(find_fence(&chars, 12), 12);
    assert_eq!(find_fence(&chars_of("no fence::"), 0), 10);
}

#[test]
fn runs_end_where_their_characters_end() {
    let chars = chars_of(":::: Bob \t:\n \r\n\tx");
    assert_eq!(skip_fences(&chars, 0), 4);
    assert_eq!(skip_fences(&chars, 4), 4);
    assert_eq!(skip_token(&chars, 4), 10);
    assert_eq!(skip_fences(&chars, 10), 11);
    assert_eq!(skip_padding(&chars, 11), 16);
    assert_eq!(skip_padding(&chars, 16), 16);
    assert_eq!(skip_token(&chars, 16), 17);
    assert_eq!(skip_token(&chars_of("name\nrest"), 0), 4);
    assert_eq!(skip_padding(&chars_of(" \u{a0}"), 0), 1);
}

#[test]
fn marker_lines_hold_three_hyphens_alone() {
    let chars = chars_of("---\na---\n--- \n----\n---\n---");
    assert!(is_marker_line_at(&chars, 0));
    assert!(!is_marker_line_at(&chars, 5));
    assert!(!is_marker_line_at(&chars, 9));
    assert!(!is_marker_line_at(&chars, 14));
    assert!(!is_marker_line_at(&chars, 15));
    assert!(is_marker_line_at(&chars, 19));
    assert!(is_marker_line_at(&chars, 23));
    assert!(!is_marker_line_at(&chars, 26));
}

#[test]
fn frame_ends_at_the_first_closing_line() {
    assert_eq!(yaml_header(&chars_of("---\na---\n--- \n----\n---\n---")), Some((19, 23)));
    assert_eq!(yaml_header(&chars_of("---\n---")), Some((4, 7)));
    assert_eq!(yaml_header(&chars_of("---\n---\n")), Some((4, 8)));
    assert_eq!(yaml_header(&chars_of("---\nx\n---\nbody")), Some((6, 10)));
    assert_eq!(yaml_header(&chars_of("---")), None);
    assert_eq!(yaml_header(&chars_of("---\n")), None);
    assert_eq!(yaml_header(&chars_of("---\r\nx\r\n---\r\n")), None);
    assert_eq!(yaml_header(&chars_of(" ---\n---\n")), None);
    assert_eq!(yaml_header(&chars_of("")), None);
}
