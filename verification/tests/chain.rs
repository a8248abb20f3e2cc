//! Tests of the error-chain core: construction, the combinator, the cause
//! links, the renderer and the terminating paths.

use ruc::err::combine;
use ruc::err::debug_render;
use ruc::err::discard_silently;
use ruc::err::log_and_discard;
use ruc::err::ContextNode;
use ruc::err::Location;
use ruc::err::Msg;

#[derive(Debug, Eq, PartialEq)]
struct CustomErr(i32);

fn loc(line: u32, column: u32) -> Location {
    Location::new("src/lib.rs", line, column)
}

fn text(s: &str) -> Msg {
    Msg::Text(s.to_string())
}

fn chain_messages(head: &ContextNode) -> Vec<String> {
    let mut out = Vec::new();
    let mut cur = head;
    loop {
        out.push(cur.message().to_string());
        match cur.cause() {
            Some(c) => cur = c,
            None => return out,
        }
    }
}

fn t_display_style_inner() -> Result<(), ContextNode> {
    let l1 = || -> Result<(), ContextNode> {
        Err(ContextNode::new(text("The final error message!"), loc(240, 33)))
    };
    let l2 = || -> Result<(), ContextNode> { combine(l1(), Msg::placeholder(), loc(241, 44)) };
    let l3 = || -> Result<(), ContextNode> {
        combine(l2(), text("A custom message!"), loc(242, 44))
    };
    let l4 = || -> Result<(), ContextNode> { combine(l3(), text("ERR_UNKNOWN"), loc(243, 44)) };
    let l5 = || -> Result<(), ContextNode> {
        combine(l4(), Msg::Rendered(debug_render(&CustomErr(-1))), loc(244, 44))
    };

    combine(l5(), Msg::placeholder(), loc(246, 14))
}

fn unwrap_or_die<T>(r: Result<T, ContextNode>, location: Location) -> T {
    match combine(r, Msg::placeholder(), location) {
        Ok(v) => v,
        Err(e) => {
            e.emit();
            panic!();
        }
    }
}

#[test]
#[should_panic]
fn t_display_style() {
    unwrap_or_die(t_display_style_inner(), loc(252, 10));
}

#[test]
#[should_panic]
fn t_display_style_debug() {
    unwrap_or_die(t_display_style_inner(), loc(258, 10));
}

#[test]
fn t_macro() {
    let _ = log_and_discard(
        Err::<u8, _>(ContextNode::new(Msg::placeholder(), loc(274, 30))),
        Msg::placeholder(),
        loc(274, 13),
    );
    discard_silently(Err::<u8, _>(ContextNode::new(Msg::placeholder(), loc(275, 24))));
    let _ = log_and_discard(
        Err::<u8, _>(ContextNode::new(Msg::placeholder(), loc(276, 29))),
        Msg::placeholder(),
        loc(276, 9),
    );
    let now = ruc::clock::ts();
    ContextNode::new(Msg::Text(format!("{}", now)), loc(277, 9)).emit();
}

#[test]
fn originating_error_has_no_cause() {
    let e = ContextNode::new(text("root"), loc(1, 1));
    assert!(e.cause().is_none());
    assert_eq!(e.message(), "root");
    let at = e.location();
    assert_eq!(at.file, "src/lib.rs");
    assert_eq!(at.line, 1);
    assert_eq!(at.column, 1);
}

#[test]
fn combine_on_success_is_a_no_op() {
    let r: Result<u32, ContextNode> = Ok(7);
    let out = combine(r, text("never used"), loc(2, 2));
    assert_eq!(out.unwrap(), 7);
}

#[test]
fn combine_preserves_the_prior_chain() {
    let root = ContextNode::new(text("root"), loc(3, 3));
    let wrapped = match combine(Err::<(), _>(root), text("outer"), loc(4, 4)) {
        Err(e) => e,
        Ok(_) => unreachable!(),
    };
    assert_eq!(wrapped.message(), "outer");
    assert_eq!(wrapped.location().line, 4);
    let cause = wrapped.cause().unwrap();
    assert_eq!(cause.message(), "root");
    assert_eq!(cause.location().line, 3);
    assert!(cause.cause().is_none());
}

#[test]
fn render_format_of_one_node() {
    let e = ContextNode::new(text("boom"), Location::new("lib.rs", 12, 7));
    assert_eq!(e.render(), "lib.rs:12:7: boom\n");
}

#[test]
fn render_format_with_larger_numbers() {
    let e = ContextNode::new(text("m"), Location::new("f", 1234, 56));
    assert_eq!(e.render(), "f:1234:56: m\n");
    let z = ContextNode::new(text("zero"), Location::new("g", 0, 4_294_967_295));
    assert_eq!(z.render(), "g:0:4294967295: zero\n");
}

#[test]
fn render_one_line_per_node_most_recent_first() {
    let mut r: Result<(), ContextNode> = Err(ContextNode::new(text("root"), loc(10, 1)));
    r = combine(r, text("mid"), loc(11, 1));
    r = combine(r, text("top"), loc(12, 1));
    let e = match r {
        Err(e) => e,
        Ok(_) => unreachable!(),
    };
    let report = e.render();
    let lines: Vec<&str> = report.lines().collect();
    assert_eq!(lines.len(), 3);
    assert!(lines[0].ends_with(": top"));
    assert!(lines[1].ends_with(": mid"));
    assert!(lines[2].ends_with(": root"));
}

#[test]
fn render_is_deterministic_and_does_not_mutate() {
    let mut r: Result<(), ContextNode> = Err(ContextNode::new(text("root"), loc(20, 2)));
    r = combine(r, text("outer"), loc(21, 2));
    let e = match r {
        Err(e) => e,
        Ok(_) => unreachable!(),
    };
    let first = e.render();
    let second = e.render();
    assert_eq!(first, second);
    assert_eq!(e.message(), "outer");
    assert_eq!(chain_messages(&e), vec!["outer".to_string(), "root".to_string()]);
}

#[test]
fn end_to_end_six_line_report() {
    let mut r: Result<(), ContextNode> = Err(ContextNode::new(
        text("The final error message!"),
        loc(30, 1),
    ));
    r = combine(r, Msg::placeholder(), loc(31, 1));
    r = combine(r, Msg::placeholder(), loc(32, 1));
    r = combine(r, text("A custom message!"), loc(33, 1));
    r = combine(r, text("ERR_UNKNOWN"), loc(34, 1));
    let payload = debug_render(&CustomErr(-1));
    assert_eq!(payload, "CustomErr(-1)");
    r = combine(r, Msg::Rendered(payload), loc(35, 1));
    let e = match r {
        Err(e) => e,
        Ok(_) => unreachable!(),
    };
    let report = e.render();
    let lines: Vec<&str> = report.lines().collect();
    assert_eq!(lines.len(), 6);
    assert!(lines[0].ends_with(": CustomErr(-1)"));
    assert!(lines[5].ends_with(": The final error message!"));
    assert_eq!(e.message(), "CustomErr(-1)");
    let messages = chain_messages(&e);
    assert_eq!(messages.len(), 6);
    assert_eq!(messages[5], "The final error message!");
}

#[test]
fn log_and_discard_swallows_the_error() {
    let out = log_and_discard(
        Err::<u8, _>(ContextNode::new(text("ignored"), loc(40, 1))),
        Msg::placeholder(),
        loc(40, 9),
    );
    assert_eq!(out, Err(()));
    let kept = log_and_discard(Ok::<u8, ContextNode>(5), Msg::placeholder(), loc(41, 9));
    assert_eq!(kept, Ok(5));
}
