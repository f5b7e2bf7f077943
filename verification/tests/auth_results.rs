use deltachat_channels::auth_results::{
    authresults_dkim_passed, dkim_passed, group_authentication_results, is_verdict_known,
    parse_authentication_results, update_authservid_candidates, AuthResults, AuthResultsError,
};
use deltachat_channels::mail::parse_mail;

fn strings(list: &[&str]) -> Vec<String> {
    list.iter().map(|s| s.to_string()).collect()
}

fn results(list: &[&str]) -> AuthResults {
    group_authentication_results(&strings(list), "example.org").unwrap()
}

#[test]
fn dkim_pass_for_the_domain() {
    let pass = |value: &str| authresults_dkim_passed(&strings(&[value]), "example.org");
    assert_eq!(pass("mx.net; dkim=pass header.d=example.org header.s=x; spf=pass"), Ok(true));
    assert_eq!(pass("mx.net; dkim=pass header.i=@example.org"), Ok(true));
    assert_eq!(pass("mx.net; dkim=pass header.d=other.org"), Ok(false));
    assert_eq!(pass("mx.net; dkim=fail header.d=example.org"), Ok(false));
    assert_eq!(pass("mx.net; dkim=pass; header.d=example.org"), Ok(false));
    assert_eq!(pass("mx.net; dkim=passed header.d=example.org"), Ok(false));
    assert_eq!(pass("mx.net; dkim="), Ok(false));
    assert_eq!(pass("mx.net; spf=pass"), Ok(false));
    assert_eq!(pass("mx.net; dkim=none; dkim=pass header.d=example.org"), Ok(false));
}

#[test]
fn one_passing_header_is_enough() {
    let pass = "a; dkim=pass header.d=example.org";
    let fail = "a; dkim=fail header.d=example.org";
    assert_eq!(authresults_dkim_passed(&strings(&[pass, fail]), "example.org"), Ok(true));
    assert_eq!(authresults_dkim_passed(&strings(&[fail, pass]), "example.org"), Ok(true));
    assert_eq!(authresults_dkim_passed(&strings(&[fail, fail]), "example.org"), Ok(false));
    assert_eq!(authresults_dkim_passed(&[], "example.org"), Ok(false));
}

#[test]
fn results_are_grouped_by_server() {
    let r = results(&[
        "a.net; dkim=fail",
        "b.net; dkim=pass header.d=example.org",
        "a.net; dkim=pass header.i=@example.org",
        "c.net; none",
    ]);
    assert_eq!(r.keys(), &strings(&["a.net;", "b.net;", "c.net;"]));
    assert!(r.get("a.net;").unwrap().dkim_passed);
    assert!(r.get("b.net;").unwrap().dkim_passed);
    assert!(!r.get("c.net;").unwrap().dkim_passed);
    assert!(r.get("a.net").is_none());
    assert!(!r.is_empty());
    assert!(results(&[]).is_empty());
}

#[test]
fn header_without_a_server_is_an_error() {
    let r = group_authentication_results(&strings(&["a.net x", "  "]), "example.org");
    assert_eq!(r.err(), Some(AuthResultsError::EmptyHeader));
}

#[test]
fn results_of_a_mail() {
    let mail = parse_mail(
        b"Authentication-Results: mx.net;\r\n dkim=pass header.d=example.org\r\n\
          Authentication-Results: other.net; dkim=fail\r\n\r\n",
    )
    .unwrap();
    let r = parse_authentication_results(&mail, "example.org").unwrap();
    assert_eq!(r.keys(), &strings(&["mx.net;", "other.net;"]));
    assert!(r.get("mx.net;").unwrap().dkim_passed);
    assert!(!r.get("other.net;").unwrap().dkim_passed);
}

#[test]
fn results_of_a_mail_that_cannot_be_read() {
    let mut mail = parse_mail(b"Subject: x\n\n").unwrap();
    mail.raw_bytes = b" y".to_vec();
    let r = parse_authentication_results(&mail, "example.org");
    assert!(matches!(r, Err(AuthResultsError::Mail(_))));
}

#[test]
fn candidates_narrow_down() {
    let r = results(&["a x", "b x", "c x"]);
    assert_eq!(update_authservid_candidates(&r, None), Some("a b c".to_string()));
    let r = results(&["c x", "a x"]);
    assert_eq!(update_authservid_candidates(&r, Some("a b c")), Some("c a".to_string()));
    assert_eq!(update_authservid_candidates(&r, Some("c a")), Some("c a".to_string()));
    assert_eq!(update_authservid_candidates(&r, Some("d")), Some("".to_string()));
    assert_eq!(update_authservid_candidates(&r, Some("")), Some("".to_string()));
    assert_eq!(update_authservid_candidates(&results(&[]), Some("a")), None);
    assert_eq!(update_authservid_candidates(&results(&[]), None), None);
}

#[test]
fn verdict_of_the_only_candidate_counts() {
    let r = results(&["a dkim=pass header.d=example.org", "b dkim=fail"]);
    assert!(dkim_passed(&r, Some("a")));
    assert!(!dkim_passed(&r, Some("b")));
    assert!(!dkim_passed(&r, Some("b b")));
    assert!(dkim_passed(&r, Some("a b")));
    assert!(dkim_passed(&r, None));
}

#[test]
fn verdict_is_unknown_without_a_header_of_the_only_candidate() {
    let r = results(&["a x"]);
    assert!(is_verdict_known(&r, Some("a")));
    assert!(is_verdict_known(&r, Some("b c")));
    assert!(is_verdict_known(&r, None));
    assert!(!is_verdict_known(&r, Some("b")));
    assert!(!is_verdict_known(&r, Some("")));
}
