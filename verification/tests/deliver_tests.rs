use cmdrelay::deliver::{
    plan_generation, render_latency, render_ping, GenerationFailure, Outbound, SendKind,
};

const APOLOGY: &str = "Sorry, there was a problem generating a response.";
const FOOTER_LEAD: &str = "\n-# AI can be wrong, please check information and do not misuse to provide harmful information\n-# ";

#[test]
fn latency_is_rendered_to_two_places() {
    assert_eq!(render_latency(123450), b"1234.50".to_vec());
    assert_eq!(render_latency(5), b"0.05".to_vec());
    assert_eq!(render_latency(99), b"0.99".to_vec());
    assert_eq!(render_latency(100), b"1.00".to_vec());
}

#[test]
fn ping_substitutes_elapsed_value() {
    let out = render_ping("Pong! (Latency: {:.2}\u{b5}s)".as_bytes(), 123450);
    assert_eq!(String::from_utf8(out).unwrap(), "Pong! (Latency: 1234.50\u{b5}s)");
}

#[test]
fn ping_template_without_placeholder_is_unchanged() {
    let out = render_ping(b"Pong!", 123450);
    assert_eq!(out, b"Pong!".to_vec());
}

fn assert_single_apology(plan: &Vec<Outbound>) {
    assert_eq!(plan.len(), 1);
    assert!(matches!(plan[0].kind, SendKind::Reply));
    assert_eq!(String::from_utf8(plan[0].text.clone()).unwrap(), APOLOGY);
}

#[test]
fn backend_timeout_yields_one_apology_reply() {
    let plan = plan_generation(&Err(GenerationFailure::Backend), 1800);
    assert_single_apology(&plan);
}

#[test]
fn every_failure_kind_yields_the_apology() {
    assert_single_apology(&plan_generation(&Err(GenerationFailure::Transport), 1800));
    assert_single_apology(&plan_generation(&Err(GenerationFailure::Decode), 1800));
}

#[test]
fn success_is_first_reply_then_posts() {
    let plan = plan_generation(&Ok(b"one two three".to_vec()), 4);
    assert_eq!(plan.len(), 4);
    assert!(matches!(plan[0].kind, SendKind::Reply));
    for o in plan.iter().skip(1) {
        assert!(matches!(o.kind, SendKind::Post));
    }
    let texts: Vec<String> = plan
        .iter()
        .map(|o| String::from_utf8(o.text.clone()).unwrap())
        .collect();
    assert_eq!(texts[0], format!("one {}1/4", FOOTER_LEAD));
    assert_eq!(texts[1], format!("two {}2/4", FOOTER_LEAD));
    assert_eq!(texts[2], format!("thre{}3/4", FOOTER_LEAD));
    assert_eq!(texts[3], format!("e{}4/4", FOOTER_LEAD));
}

#[test]
fn success_strips_reasoning_and_trims() {
    let plan = plan_generation(&Ok(b"<think>x</think>  hi  ".to_vec()), 1800);
    assert_eq!(plan.len(), 1);
    assert!(matches!(plan[0].kind, SendKind::Reply));
    assert_eq!(
        String::from_utf8(plan[0].text.clone()).unwrap(),
        format!("hi{}1/1", FOOTER_LEAD)
    );
}
