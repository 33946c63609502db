use simplesmtpd::handlers::{handle_cmd_data, handle_cmd_ehlo, handle_cmd_helo, handle_cmd_help,
    handle_cmd_mail, handle_cmd_noop, handle_cmd_quit, handle_cmd_rcpt, handle_cmd_rset,
    handle_cmd_unknown, handle_cmd_vrfy};
use simplesmtpd::SmtpState;

#[test]
fn helo_domain() {
    let (state, _) = handle_cmd_helo("HELO domain.com", SmtpState::Start);
    assert!(matches!(state, SmtpState::Hello));
}

#[test]
fn helo_missing() {
    let (state, _) = handle_cmd_helo("HELO", SmtpState::Start);
    assert!(matches!(state, SmtpState::Start));
}

#[test]
fn ehlo_domain() {
    let (state, _) = handle_cmd_ehlo("EHLO domain.com", SmtpState::Start);
    assert!(matches!(state, SmtpState::Hello));
}

#[test]
fn ehlo_ip4() {
    let (state, _) = handle_cmd_ehlo("EHLO [8.8.8.8]", SmtpState::Start);
    assert!(matches!(state, SmtpState::Hello));
}

#[test]
fn ehlo_ip6() {
    let (state, _) = handle_cmd_ehlo("EHLO [IPv6:ff01::1]", SmtpState::Start);
    assert!(matches!(state, SmtpState::Hello));
}

#[test]
fn helo_missing_replies_501() {
    let (state, reply) = handle_cmd_helo("HELO", SmtpState::Start);
    assert!(matches!(state, SmtpState::Start));
    assert_eq!(reply.code, 501);
    assert_eq!(reply.lines, vec!["missing argument".to_string()]);
}

#[test]
fn helo_domain_replies_250() {
    let (state, reply) = handle_cmd_helo("HELO domain.com", SmtpState::Start);
    assert!(matches!(state, SmtpState::Hello));
    assert_eq!(reply.code, 250);
    assert_eq!(reply.lines, vec!["howdy!".to_string()]);
}

#[test]
fn helo_too_many_arguments() {
    let (state, reply) = handle_cmd_helo("HELO a.com b.com", SmtpState::Start);
    assert!(matches!(state, SmtpState::Start));
    assert_eq!(reply.code, 501);
    assert_eq!(reply.lines, vec!["too many arguments".to_string()]);
}

#[test]
fn helo_double_space_counts_as_extra_argument() {
    let (state, reply) = handle_cmd_helo("HELO  a.com", SmtpState::Start);
    assert!(matches!(state, SmtpState::Start));
    assert_eq!(reply.code, 501);
}

#[test]
fn helo_invalid_domain_replies_501() {
    let (state, reply) = handle_cmd_helo("HELO a..b", SmtpState::Start);
    assert!(matches!(state, SmtpState::Start));
    assert_eq!(reply.code, 501);
    assert_eq!(
        reply.lines,
        vec!["invalid argument (not a valid domain name)".to_string()]
    );
}

#[test]
fn ehlo_success_is_two_lines() {
    let (state, reply) = handle_cmd_ehlo("EHLO [8.8.8.8]", SmtpState::Start);
    assert!(matches!(state, SmtpState::Hello));
    assert_eq!(reply.code, 250);
    assert_eq!(
        reply.lines,
        vec![
            "simplesmtp.thought.net greets you.".to_string(),
            "HELP".to_string()
        ]
    );
}

#[test]
fn ehlo_ip6_success_is_two_lines() {
    let (state, reply) = handle_cmd_ehlo("EHLO [IPv6:ff01::1]", SmtpState::Start);
    assert!(matches!(state, SmtpState::Hello));
    assert_eq!(reply.code, 250);
    assert_eq!(reply.lines.len(), 2);
}

#[test]
fn ehlo_zero_length_argument() {
    let (state, reply) = handle_cmd_ehlo("EHLO ", SmtpState::Start);
    assert!(matches!(state, SmtpState::Start));
    assert_eq!(reply.code, 501);
    assert_eq!(reply.lines, vec!["zero length argument".to_string()]);
}

#[test]
fn ehlo_bad_ip6_literal() {
    let (state, reply) = handle_cmd_ehlo("EHLO [IPv6:zz::1]", SmtpState::Start);
    assert!(matches!(state, SmtpState::Start));
    assert_eq!(reply.code, 501);
    assert_eq!(reply.lines, vec!["invalid ipv6 address".to_string()]);
}

// The general bracketed literal is accepted without validation: a known
// soft spot of the protocol stub, preserved on purpose.
#[test]
fn ehlo_general_literal_accepted_unconditionally() {
    let (state, reply) = handle_cmd_ehlo("EHLO [foo:bar]", SmtpState::Start);
    assert!(matches!(state, SmtpState::Hello));
    assert_eq!(reply.code, 250);
}

// Even an out-of-range dotted quad slips through the general fallback.
#[test]
fn ehlo_bad_ip4_falls_back_to_general_literal() {
    let (state, reply) = handle_cmd_ehlo("EHLO [999.1.1.1]", SmtpState::Start);
    assert!(matches!(state, SmtpState::Hello));
    assert_eq!(reply.code, 250);
}

#[test]
fn ehlo_invalid_domain_replies_501() {
    let (state, reply) = handle_cmd_ehlo("EHLO a..b", SmtpState::Start);
    assert!(matches!(state, SmtpState::Start));
    assert_eq!(reply.code, 501);
}

#[test]
fn mail_before_hello_is_bad_sequence() {
    let (state, reply) = handle_cmd_mail(SmtpState::Start);
    assert!(matches!(state, SmtpState::Start));
    assert_eq!(reply.code, 503);
}

#[test]
fn mail_after_hello_moves_on() {
    let (state, reply) = handle_cmd_mail(SmtpState::Hello);
    assert!(matches!(state, SmtpState::Mail));
    assert_eq!(reply.code, 250);
}

#[test]
fn rcpt_out_of_sequence_resets_to_hello() {
    let (state, reply) = handle_cmd_rcpt(SmtpState::Start);
    assert!(matches!(state, SmtpState::Hello));
    assert_eq!(reply.code, 503);
}

#[test]
fn rcpt_repeats_from_rcpt() {
    let (first, r1) = handle_cmd_rcpt(SmtpState::Mail);
    assert!(matches!(first, SmtpState::Rcpt));
    assert_eq!(r1.code, 250);
    let (second, r2) = handle_cmd_rcpt(first);
    assert!(matches!(second, SmtpState::Rcpt));
    assert_eq!(r2.code, 250);
}

#[test]
fn data_needs_rcpt_first() {
    let (state, reply) = handle_cmd_data(SmtpState::Hello);
    assert!(matches!(state, SmtpState::Hello));
    assert_eq!(reply.code, 503);
}

#[test]
fn data_after_rcpt_replies_354() {
    let (state, reply) = handle_cmd_data(SmtpState::Rcpt);
    assert!(matches!(state, SmtpState::Data));
    assert_eq!(reply.code, 354);
}

#[test]
fn noop_and_vrfy_keep_every_state() {
    let states = [
        SmtpState::Start,
        SmtpState::Hello,
        SmtpState::Mail,
        SmtpState::Rcpt,
        SmtpState::Data,
        SmtpState::Quit,
    ];
    for st in states {
        let (after, reply) = handle_cmd_noop(st);
        assert_eq!(after, st);
        assert_eq!(reply.code, 250);
        let (after, reply) = handle_cmd_vrfy(st);
        assert_eq!(after, st);
        assert_eq!(reply.code, 250);
    }
}

#[test]
fn rset_from_start_stays_start() {
    let (state, reply) = handle_cmd_rset(SmtpState::Start);
    assert!(matches!(state, SmtpState::Start));
    assert_eq!(reply.code, 250);
}

#[test]
fn rset_from_elsewhere_yields_hello() {
    for st in [SmtpState::Hello, SmtpState::Mail, SmtpState::Rcpt, SmtpState::Data] {
        let (state, reply) = handle_cmd_rset(st);
        assert!(matches!(state, SmtpState::Hello));
        assert_eq!(reply.code, 250);
    }
}

#[test]
fn quit_is_terminal_from_anywhere() {
    for st in [SmtpState::Start, SmtpState::Hello, SmtpState::Mail, SmtpState::Rcpt] {
        let (state, reply) = handle_cmd_quit(st);
        assert!(matches!(state, SmtpState::Quit));
        assert_eq!(reply.code, 250);
    }
}

#[test]
fn help_replies_250() {
    let (state, reply) = handle_cmd_help(SmtpState::Start);
    assert!(matches!(state, SmtpState::Start));
    assert_eq!(reply.code, 250);
}

#[test]
fn unknown_replies_502() {
    let (state, reply) = handle_cmd_unknown(SmtpState::Mail);
    assert!(matches!(state, SmtpState::Mail));
    assert_eq!(reply.code, 502);
    assert_eq!(reply.lines, vec!["command not implemented".to_string()]);
}
