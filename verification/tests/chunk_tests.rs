use cmdrelay::chunk::{render, render_footer, DEFAULT_CHUNK_LIMIT};
use cmdrelay::strip::strip_reasoning;

const FOOTER_LEAD: &str = "\n-# AI can be wrong, please check information and do not misuse to provide harmful information\n-# ";

#[test]
fn strips_single_reasoning_span() {
    let out = strip_reasoning(b"a<think>secret</think>b", b"<think>", b"</think>");
    assert_eq!(out, b"ab".to_vec());
}

#[test]
fn unterminated_open_left_in_place() {
    let out = strip_reasoning(b"a<think>b", b"<think>", b"</think>");
    assert_eq!(out, b"a<think>b".to_vec());
}

#[test]
fn strips_spans_across_line_boundaries() {
    let out = strip_reasoning(b"x<think>a\nb</think>y<think>c</think>z", b"<think>", b"</think>");
    assert_eq!(out, b"xyz".to_vec());
}

#[test]
fn text_after_unmatched_open_is_kept() {
    let out = strip_reasoning(b"a<think>b</think>c<think>d", b"<think>", b"</think>");
    assert_eq!(out, b"ac<think>d".to_vec());
}

#[test]
fn footer_formats_position_and_total() {
    let foot = render_footer(1, 2);
    assert_eq!(foot, format!("{}1/2", FOOTER_LEAD).into_bytes());
}

#[test]
fn render_round_trip_on_concrete_input() {
    let raw = b"  <think>hidden</think>hello world  ";
    let segs = render(raw, 4);
    let mut joined: Vec<u8> = Vec::new();
    for (i, seg) in segs.iter().enumerate() {
        assert!(seg.body.len() <= 4);
        assert_eq!(seg.index, i + 1);
        assert_eq!(seg.total, segs.len());
        joined.extend_from_slice(&seg.body);
    }
    assert_eq!(joined, b"hello world".to_vec());
    assert_eq!(segs.len(), 3);
    assert_eq!(segs[0].body, b"hell".to_vec());
    assert_eq!(segs[1].body, b"o wo".to_vec());
    assert_eq!(segs[2].body, b"rld".to_vec());
}

#[test]
fn empty_remainder_yields_single_empty_segment() {
    let segs = render(b"<think>all hidden</think>", DEFAULT_CHUNK_LIMIT);
    assert_eq!(segs.len(), 1);
    assert_eq!(segs[0].body, Vec::<u8>::new());
    assert_eq!(segs[0].index, 1);
    assert_eq!(segs[0].total, 1);
}

#[test]
fn body_exactly_at_limit_is_one_segment() {
    let segs = render(b"abcd", 4);
    assert_eq!(segs.len(), 1);
    assert_eq!(segs[0].body, b"abcd".to_vec());
}

#[test]
fn one_byte_over_limit_splits_in_two() {
    let segs = render(b"abcde", 4);
    assert_eq!(segs.len(), 2);
    assert_eq!(segs[0].body, b"abcd".to_vec());
    assert_eq!(segs[1].body, b"e".to_vec());
}

#[test]
fn default_limit_is_1800() {
    assert_eq!(DEFAULT_CHUNK_LIMIT, 1800);
}
