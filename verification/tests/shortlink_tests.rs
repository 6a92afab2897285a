use shortlink::service::{
    creation_authorized, make_short_url, make_stats_url, redirect_target, stats_access,
};
use shortlink::store::LinkStore;
use shortlink::token_gen::rand_string;
use shortlink::{LinkError, KEY_LEN, TOKEN_LEN};
use std::collections::HashSet;

fn is_alnum(s: &str) -> bool {
    s.chars().all(|c| c.is_ascii_alphanumeric())
}

#[test]
fn rand_string_has_requested_length_and_alphabet() {
    let s = rand_string(6);
    assert_eq!(s.len(), 6);
    assert!(is_alnum(&s));
    let t = rand_string(24);
    assert_eq!(t.len(), 24);
    assert!(is_alnum(&t));
    let e = rand_string(0);
    assert_eq!(e.len(), 0);
}

#[test]
fn created_link_resolves_to_submitted_url() {
    let mut st = LinkStore::new();
    let (key, _token) = st.create_link("https://example.com".to_string()).unwrap();
    assert_eq!(key.len(), KEY_LEN);
    assert!(is_alnum(&key));
    let target = st.resolve_and_count(&key).unwrap();
    assert_eq!(target, "https://example.com");
}

#[test]
fn clicks_start_at_zero_and_count_each_redirect() {
    let mut st = LinkStore::new();
    let (key, token) = st.create_link("https://example.com".to_string()).unwrap();
    assert_eq!(st.get_stats(&key, Some(&token)), Ok(0));
    for _ in 0..5 {
        let target = st.resolve_and_count(&key).unwrap();
        assert_eq!(target, "https://example.com");
    }
    assert_eq!(st.get_stats(&key, Some(&token)), Ok(5));
}

#[test]
fn stats_require_the_exact_secret_token() {
    let mut st = LinkStore::new();
    let (key, token) = st.create_link("https://example.com".to_string()).unwrap();
    let _ = st.resolve_and_count(&key).unwrap();
    assert_eq!(st.get_stats(&key, Some(&token)), Ok(1));
    let wrong = "000000000000000000000000".to_string();
    assert_eq!(
        st.get_stats(&key, Some(&wrong)),
        Err(LinkError::Unauthorized)
    );
    assert_eq!(st.get_stats(&key, None), Err(LinkError::NotFound));
    let absent = "zzzzzz".to_string();
    assert_eq!(
        st.get_stats(&absent, Some(&token)),
        Err(LinkError::NotFound)
    );
}

#[test]
fn thousand_sequential_allocations_are_distinct() {
    let mut st = LinkStore::new();
    let mut seen: HashSet<String> = HashSet::new();
    for _ in 0..1000 {
        let key = st.allocate().unwrap();
        assert_eq!(key.len(), KEY_LEN);
        assert!(is_alnum(&key));
        assert!(seen.insert(key));
    }
    assert_eq!(seen.len(), 1000);
}

#[test]
fn reserved_key_does_not_redirect() {
    let mut st = LinkStore::new();
    let key = st.allocate().unwrap();
    assert!(st.key_exists(&key));
    assert_eq!(st.resolve_and_count(&key), Err(LinkError::NotFound));
    // Reserved records carry no token yet, so stats reads stay not-found.
    let some_token = rand_string(TOKEN_LEN);
    assert_eq!(
        st.get_stats(&key, Some(&some_token)),
        Err(LinkError::NotFound)
    );
}

#[test]
fn absent_key_does_not_redirect() {
    let mut st = LinkStore::new();
    let absent = "abc123".to_string();
    assert!(!st.key_exists(&absent));
    assert_eq!(st.resolve_and_count(&absent), Err(LinkError::NotFound));
}

#[test]
fn creation_response_urls_have_the_documented_shape() {
    let mut st = LinkStore::new();
    let (key, token) = st.create_link("https://example.com".to_string()).unwrap();
    let scheme = "https".to_string();
    let host = "sho.rt".to_string();
    let short_url = make_short_url(&scheme, &host, &key);
    let stats_url = make_stats_url(&short_url, &token);
    assert!(short_url.starts_with("https://sho.rt/"));
    let tail = &short_url["https://sho.rt/".len()..];
    assert_eq!(tail.len(), 6);
    assert!(is_alnum(tail));
    assert!(stats_url.starts_with(&short_url));
    let query = &stats_url[short_url.len()..];
    assert!(query.starts_with("/stats?token="));
    let embedded = &query["/stats?token=".len()..];
    assert_eq!(embedded.len(), 24);
    assert!(is_alnum(embedded));
    assert_eq!(embedded, token);
}

#[test]
fn short_url_is_exactly_scheme_host_and_key() {
    let scheme = "http".to_string();
    let host = "localhost:3000".to_string();
    let key = "a1B2c3".to_string();
    let url = make_short_url(&scheme, &host, &key);
    assert_eq!(url, "http://localhost:3000/a1B2c3");
    let token = "Q".repeat(24);
    let stats = make_stats_url(&url, &token);
    assert_eq!(
        stats,
        format!("http://localhost:3000/a1B2c3/stats?token={}", token)
    );
}

#[test]
fn creation_auth_requires_configured_and_matching_secret() {
    let secret = "creation-secret-1".to_string();
    let same = "creation-secret-1".to_string();
    let other = "something-else".to_string();
    assert!(creation_authorized(Some(&secret), Some(&same)));
    assert!(!creation_authorized(Some(&secret), Some(&other)));
    assert!(!creation_authorized(Some(&secret), None));
    assert!(!creation_authorized(None, Some(&same)));
    assert!(!creation_authorized(None, None));
}

#[test]
fn redirect_decision_covers_absent_empty_and_stored_urls() {
    assert_eq!(redirect_target(None), Err(LinkError::NotFound));
    assert_eq!(
        redirect_target(Some(String::new())),
        Err(LinkError::NotFound)
    );
    assert_eq!(
        redirect_target(Some("https://example.com".to_string())),
        Ok("https://example.com".to_string())
    );
}

#[test]
fn stats_access_decision_covers_every_arm() {
    let stored = "tok".to_string();
    let right = "tok".to_string();
    let wrong = "kot".to_string();
    assert_eq!(stats_access(None, None), Err(LinkError::NotFound));
    assert_eq!(stats_access(None, Some(&right)), Err(LinkError::NotFound));
    assert_eq!(
        stats_access(Some(stored.clone()), None),
        Err(LinkError::NotFound)
    );
    assert_eq!(
        stats_access(Some(stored.clone()), Some(&wrong)),
        Err(LinkError::Unauthorized)
    );
    assert_eq!(stats_access(Some(stored), Some(&right)), Ok(()));
}

#[test]
fn finalize_fills_a_reserved_record() {
    let mut st = LinkStore::new();
    let key = st.allocate().unwrap();
    let token = st.finalize(&key, "https://one.example".to_string());
    assert_eq!(token.len(), TOKEN_LEN);
    assert!(is_alnum(&token));
    assert_eq!(
        st.resolve_and_count(&key),
        Ok("https://one.example".to_string())
    );
    assert_eq!(st.get_stats(&key, Some(&token)), Ok(1));
}
