use pezzottify::http_cache::eq_ignore_ascii_case;
use pezzottify::http_cache::merged_vary;
use pezzottify::http_cache::private_vary;

fn names(values: &[String]) -> Vec<String> {
    values
        .iter()
        .flat_map(|v| v.split(','))
        .map(|v| v.trim().to_ascii_lowercase())
        .collect()
}

#[test]
fn private_vary_adds_cookie_and_authorization_keeping_old_values() {
    let vary = private_vary(vec!["Accept-Encoding".to_string()]);
    assert_eq!(vary[0], "Accept-Encoding");
    let all = names(&vary);
    assert!(all.contains(&"accept-encoding".to_string()));
    assert!(all.contains(&"cookie".to_string()));
    assert!(all.contains(&"authorization".to_string()));
}

#[test]
fn private_vary_does_not_repeat_a_named_field() {
    let vary = private_vary(vec!["Accept-Encoding, cookie".to_string(), "COOKIE".to_string()]);
    assert_eq!(vary[0], "Accept-Encoding, cookie");
    assert_eq!(vary[1], "COOKIE");
    let all = names(&vary);
    assert_eq!(all.iter().filter(|v| *v == "cookie").count(), 2);
    assert_eq!(all.iter().filter(|v| *v == "authorization").count(), 1);
}

#[test]
fn merged_vary_on_empty_header_adds_the_field() {
    assert_eq!(merged_vary(Vec::new(), "Cookie"), vec!["Cookie".to_string()]);
    assert_eq!(merged_vary(vec!["cookie".to_string()], "Cookie"), vec!["cookie".to_string()]);
}

#[test]
fn header_names_compare_without_ascii_case() {
    assert!(eq_ignore_ascii_case("Authorization", "AUTHORIZATION"));
    assert!(!eq_ignore_ascii_case("Cookie", "Cookies"));
}
