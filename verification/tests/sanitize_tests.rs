use threedots::comment::ContentType;
use threedots::logging::Logging;
use threedots::origin::{access_control_decision, AccessDecision};
use threedots::sanitize::sanitize;
use threedots::text::{chars_of, str_ends_with, str_eq};

#[test]
fn plain_content_is_escaped_and_wrapped() {
    let out = sanitize(ContentType::Plain, "<b>hi</b>");
    assert_eq!(out, "<p>&lt;b&gt;hi&lt;/b&gt;</p>");
}

#[test]
fn plain_ampersand_is_escaped() {
    let out = sanitize(ContentType::Plain, "fish & chips > soup");
    assert_eq!(out, "<p>fish &amp; chips &gt; soup</p>");
}

#[test]
fn plain_empty_input_yields_one_empty_container() {
    let out = sanitize(ContentType::Plain, "");
    assert_eq!(out, "<p></p>");
}

#[test]
fn html_drops_images_and_bad_schemes() {
    let out = sanitize(ContentType::Html, "<img src=x><a href='javascript:1'>go</a>");
    assert!(!out.contains("<img"));
    assert!(!out.contains("javascript"));
    assert!(!out.contains("href"));
    assert!(out.contains("go"));
}

#[test]
fn html_keeps_allowed_markup_and_schemes() {
    let out = sanitize(ContentType::Html, "<em>fine</em> <a href=\"https://threedots.ca/x\">link</a>");
    assert!(out.contains("<em>fine</em>"));
    assert!(out.contains("https://threedots.ca/x"));
    let script = sanitize(ContentType::Html, "<script>alert(1)</script>ok");
    assert!(!script.contains("<script"));
    assert!(script.contains("ok"));
}

#[test]
fn content_type_codes_round_trip() {
    assert_eq!(ContentType::Plain.code(), 0);
    assert_eq!(ContentType::Html.code(), 1);
    assert_eq!(ContentType::from_code(0).unwrap(), ContentType::Plain);
    assert_eq!(ContentType::from_code(1).unwrap(), ContentType::Html);
    assert!(ContentType::from_code(2).is_err());
    assert!(ContentType::from_code(-1).is_err());
}

#[test]
fn origin_decision_follows_the_allow_list() {
    match access_control_decision(true, "https", "evil.example") {
        AccessDecision::AllowNone => {}
        _ => panic!("unknown origin must get none"),
    }
    match access_control_decision(true, "https", "threedots.ca") {
        AccessDecision::AllowOrigin(o) => assert_eq!(o, "https://threedots.ca"),
        _ => panic!("site origin must be allowed"),
    }
    match access_control_decision(true, "https", "www.threedots.ca") {
        AccessDecision::AllowOrigin(o) => assert_eq!(o, "https://www.threedots.ca"),
        _ => panic!("subdomain must be allowed"),
    }
    match access_control_decision(true, "https", "deploy-preview-7--reverent-euclid-2bfb78.netlify.app") {
        AccessDecision::AllowOrigin(_) => {}
        _ => panic!("preview deployment must be allowed"),
    }
    match access_control_decision(true, "https", "xthreedots.ca") {
        AccessDecision::AllowNone => {}
        _ => panic!("lookalike host must get none"),
    }
    match access_control_decision(false, "http", "anything.example") {
        AccessDecision::AllowAny => {}
        _ => panic!("non-production mode allows any origin"),
    }
}

#[test]
fn logging_parses_exactly_two_destinations() {
    assert_eq!(Logging::from_str("stdout").unwrap(), Logging::Fmt);
    assert_eq!(Logging::from_str("journald").unwrap(), Logging::Journald);
    let err = Logging::from_str("syslog").unwrap_err();
    assert_eq!(err.message(), "not a kind of logging: syslog");
    assert!(Logging::from_str("").is_err());
}

#[test]
fn text_helpers_behave() {
    assert!(str_eq("abc", "abc"));
    assert!(!str_eq("abc", "abd"));
    assert!(str_ends_with("a.threedots.ca", ".threedots.ca"));
    assert!(!str_ends_with("ca", ".threedots.ca"));
    let cs = chars_of("héllo");
    assert_eq!(cs.len(), 5);
    let rebuilt: String = cs.iter().collect();
    assert_eq!(rebuilt, "héllo");
}
