use simplesmtpd::validate::{is_ip_literal, is_ipv4_literal, is_ipv6_literal};
use simplesmtpd::{greeting, render_reply, session_done, session_step, SmtpState};

fn expect_code(reply: Option<simplesmtpd::Reply>) -> u16 {
    reply.expect("a reply was owed").code
}

#[test]
fn greeting_is_220() {
    let g = greeting();
    assert_eq!(g.code, 220);
    assert_eq!(render_reply(&g), "220 bogus email service ready\r\n");
}

#[test]
fn full_transaction_ends_in_hello() {
    let mut state = SmtpState::Start;
    let mut codes = Vec::new();
    for line in ["HELO a.com", "MAIL", "RCPT", "DATA", "."] {
        let (next, reply) = session_step(state, line);
        state = next;
        codes.push(expect_code(reply));
    }
    assert_eq!(codes, vec![250, 250, 250, 354, 250]);
    assert!(matches!(state, SmtpState::Hello));
}

#[test]
fn mail_before_hello_via_step() {
    let (state, reply) = session_step(SmtpState::Start, "MAIL");
    assert!(matches!(state, SmtpState::Start));
    assert_eq!(expect_code(reply), 503);
}

#[test]
fn data_from_hello_is_bad_sequence() {
    let (state, reply) = session_step(SmtpState::Hello, "DATA");
    assert!(matches!(state, SmtpState::Hello));
    assert_eq!(expect_code(reply), 503);
}

#[test]
fn quit_ends_the_session() {
    for st in [SmtpState::Start, SmtpState::Hello, SmtpState::Mail, SmtpState::Rcpt] {
        let (state, reply) = session_step(st, "QUIT");
        assert!(matches!(state, SmtpState::Quit));
        assert_eq!(expect_code(reply), 250);
        assert!(session_done(state));
    }
    assert!(!session_done(SmtpState::Start));
    assert!(!session_done(SmtpState::Data));
}

#[test]
fn body_lines_are_consumed_silently() {
    let (state, reply) = session_step(SmtpState::Data, "QUIT");
    assert!(matches!(state, SmtpState::Data));
    assert!(reply.is_none());
    let (state, reply) = session_step(SmtpState::Data, "..");
    assert!(matches!(state, SmtpState::Data));
    assert!(reply.is_none());
}

#[test]
fn lone_dot_ends_body_collection() {
    let (state, reply) = session_step(SmtpState::Data, ".");
    assert!(matches!(state, SmtpState::Hello));
    let reply = reply.expect("the terminating dot is acknowledged");
    assert_eq!(reply.code, 250);
    assert_eq!(reply.lines, vec!["duly noted and ignored, thanks.".to_string()]);
}

#[test]
fn verbs_match_case_insensitively() {
    let (state, reply) = session_step(SmtpState::Start, "helo domain.com");
    assert!(matches!(state, SmtpState::Hello));
    assert_eq!(expect_code(reply), 250);
    let (state, reply) = session_step(SmtpState::Hello, "mAiL someone");
    assert!(matches!(state, SmtpState::Mail));
    assert_eq!(expect_code(reply), 250);
}

#[test]
fn empty_line_is_unimplemented() {
    let (state, reply) = session_step(SmtpState::Hello, "");
    assert!(matches!(state, SmtpState::Hello));
    assert_eq!(expect_code(reply), 502);
}

#[test]
fn unrecognized_verb_is_unimplemented() {
    let (state, reply) = session_step(SmtpState::Hello, "EXPN list");
    assert!(matches!(state, SmtpState::Hello));
    assert_eq!(expect_code(reply), 502);
}

#[test]
fn leading_whitespace_before_verb_is_skipped() {
    let (state, reply) = session_step(SmtpState::Start, "\t NOOP");
    assert!(matches!(state, SmtpState::Start));
    assert_eq!(expect_code(reply), 250);
}

#[test]
fn ehlo_reply_renders_as_two_wire_lines() {
    let (_, reply) = session_step(SmtpState::Start, "EHLO [8.8.8.8]");
    let reply = reply.expect("EHLO draws a reply");
    assert_eq!(
        render_reply(&reply),
        "250-simplesmtp.thought.net greets you.\r\n250 HELP\r\n"
    );
}

#[test]
fn bad_sequence_reply_renders_with_code() {
    let (_, reply) = session_step(SmtpState::Start, "MAIL");
    let reply = reply.expect("MAIL draws a reply");
    assert_eq!(
        render_reply(&reply),
        "503 bad sequence of commands (didn't say hello)\r\n"
    );
}

#[test]
fn ipv4_literal_grammar() {
    assert!(is_ipv4_literal("8.8.8.8"));
    assert!(is_ipv4_literal("255.255.255.255"));
    assert!(is_ipv4_literal("0.0.0.0"));
    assert!(!is_ipv4_literal("256.1.1.1"));
    assert!(!is_ipv4_literal("01.2.3.4"));
    assert!(!is_ipv4_literal("1.2.3"));
    assert!(!is_ipv4_literal("1.2.3.4.5"));
    assert!(!is_ipv4_literal("1.2.3."));
    assert!(!is_ipv4_literal(""));
}

#[test]
fn ipv6_literal_grammar() {
    assert!(is_ipv6_literal("ff01::1"));
    assert!(is_ipv6_literal("::"));
    assert!(is_ipv6_literal("::1"));
    assert!(is_ipv6_literal("1::"));
    assert!(is_ipv6_literal("1:2:3:4:5:6:7:8"));
    assert!(is_ipv6_literal("::ffff:1.2.3.4"));
    assert!(is_ipv6_literal("1:2:3:4:5:6:1.2.3.4"));
    assert!(!is_ipv6_literal("1:2:3:4:5:6:7:8:9"));
    assert!(!is_ipv6_literal("1::2::3"));
    assert!(!is_ipv6_literal(":::"));
    assert!(!is_ipv6_literal(":"));
    assert!(!is_ipv6_literal("1:2:3:4:5:6:7:"));
    assert!(!is_ipv6_literal("12345::1"));
    assert!(!is_ipv6_literal("zz::1"));
    assert!(!is_ipv6_literal(""));
}

#[test]
fn ip_literal_covers_both_families() {
    assert!(is_ip_literal("8.8.8.8"));
    assert!(is_ip_literal("ff01::1"));
    assert!(!is_ip_literal("domain.com"));
}
