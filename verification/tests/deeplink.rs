use pf_core::deeplink::{parse, SCHEME};
use pf_core::error::Error;

const UUID: &str = "3f8a1c2d-1234-4abc-89ef-0123456789ab";

#[test]
fn parses_setup_only() {
    let req = parse(&format!("parcferme://equip?setup={UUID}")).unwrap();
    assert_eq!(req.setup_id, UUID);
    assert_eq!(req.token, None);
}

#[test]
fn parses_setup_and_token_order_independent() {
    let req = parse(&format!("parcferme://equip?token=abc.def&setup={UUID}")).unwrap();
    assert_eq!(req.setup_id, UUID);
    assert_eq!(req.token.as_deref(), Some("abc.def"));
}

#[test]
fn accepts_scheme_action_case_insensitively_and_trailing_slash() {
    assert!(parse(&format!("PARCFERME://Equip/?id={UUID}")).is_ok());
}

#[test]
fn percent_decodes_values() {
    let req = parse(&format!("parcferme://equip?setup={UUID}&token=a%2Bb%3Dc")).unwrap();
    assert_eq!(req.token.as_deref(), Some("a+b=c"));
}

#[test]
fn rejects_wrong_scheme_action_and_bad_id() {
    assert!(parse(&format!("https://parcferme.cc/setups/{UUID}")).is_err());
    assert!(parse(&format!("parcferme://share?setup={UUID}")).is_err());
    assert!(parse("parcferme://equip?setup=not-a-uuid").is_err());
    assert!(parse("parcferme://equip").is_err());
}

#[test]
fn link_errors_say_what_was_wrong() {
    match parse("https://x") {
        Err(Error::Api(m)) => assert_eq!(m, "not a parcferme:// link: \"https://x\""),
        other => panic!("unexpected {other:?}"),
    }
    match parse("parcferme://share?setup=1") {
        Err(Error::Api(m)) => {
            assert_eq!(m, "unsupported parcferme:// action: \"share\" (expected \"equip\")")
        }
        other => panic!("unexpected {other:?}"),
    }
    match parse("parcferme://equip?setup=nope") {
        Err(Error::Api(m)) => assert_eq!(m, "equip link is missing a valid setup id"),
        other => panic!("unexpected {other:?}"),
    }
    assert_eq!(SCHEME, "parcferme");
}

#[test]
fn later_pairs_win_and_empty_tokens_are_ignored() {
    let other = "00000000-0000-0000-0000-000000000000";
    let req = parse(&format!("  parcferme://equip?setup={other}&versionId={UUID}&sig=&token=t  ")).unwrap();
    assert_eq!(req.setup_id, UUID);
    assert_eq!(req.token.as_deref(), Some("t"));
    let req = parse(&format!("parcferme://equip?setup={UUID}&token=")).unwrap();
    assert_eq!(req.token, None);
    // A full setup URL is accepted as the value, percent-encoded or not.
    let req = parse(&format!(
        "parcferme://equip?setupId=https%3A%2F%2Fwww.parcferme.cc%2Fsetups%2F{UUID}"
    ))
    .unwrap();
    assert_eq!(req.setup_id, UUID);
}

#[test]
fn invalid_escapes_stay_verbatim_and_plus_is_not_a_space() {
    let req = parse(&format!("parcferme://equip?setup={UUID}&token=a%zz+b%4")).unwrap();
    assert_eq!(req.token.as_deref(), Some("a%zz+b%4"));
    let req = parse(&format!("parcferme://equip?setup={UUID}&token=%e2%9c%93%ff")).unwrap();
    assert_eq!(req.token.as_deref(), Some("✓\u{fffd}"));
}
