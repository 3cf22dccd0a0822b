use star_analyzer::aggregate::{aggregate, Item, LangCount};
use star_analyzer::error::{ErrorKind, Message};
use star_analyzer::flow::{
    AnalyzeAction, AnalyzeOrchestrator, AnalyzePhase, CallbackAction, CallbackHandler,
    CallbackPhase, Lookup, CREDENTIAL_TTL_SECONDS,
};
use star_analyzer::pagination::{
    join_pages, last_page_number, parse_page_number, total_pages, FirstPage,
};
use star_analyzer::store::CredentialStore;
use star_analyzer::token::{new_state, token_from_bytes};

const GITHUB_LINK: &str = "<https://api.github.com/user/starred?page=2>; rel=\"next\", <https://api.github.com/user/starred?page=3>; rel=\"last\"";

fn item(id: i32, lang: Option<&str>) -> Item {
    Item { id, language: lang.map(|s| s.to_string()) }
}

fn sorted(mut t: Vec<LangCount>) -> Vec<(String, usize)> {
    t.sort_by(|a, b| a.language.cmp(&b.language));
    t.into_iter().map(|c| (c.language, c.count)).collect()
}

fn pairs(p: &[(&str, usize)]) -> Vec<(String, usize)> {
    p.iter().map(|(l, c)| (l.to_string(), *c)).collect()
}

fn ids(items: &[Item]) -> Vec<i32> {
    items.iter().map(|i| i.id).collect()
}

#[test]
fn aggregate_skips_items_without_language() {
    let items = vec![item(1, Some("Go")), item(2, Some("Go")), item(3, None), item(4, Some("Rust"))];
    let t = sorted(aggregate(&items));
    assert_eq!(t, pairs(&[("Go", 2), ("Rust", 1)]));
    assert!(t.iter().all(|(l, _)| l != "null" && !l.is_empty()));
}

#[test]
fn aggregate_of_nothing_is_empty() {
    assert!(aggregate(&vec![]).is_empty());
    assert!(aggregate(&vec![item(1, None), item(2, None)]).is_empty());
}

#[test]
fn aggregate_keeps_languages_apart_by_exact_text() {
    let items = vec![item(1, Some("C")), item(2, Some("C++")), item(3, Some("c")), item(4, Some("C"))];
    assert_eq!(sorted(aggregate(&items)), pairs(&[("C", 2), ("C++", 1), ("c", 1)]));
}

#[test]
fn page_numbers_parse_as_decimal() {
    assert_eq!(parse_page_number("34"), Some(34));
    assert_eq!(parse_page_number("007"), Some(7));
    assert_eq!(parse_page_number("0"), Some(0));
    assert_eq!(parse_page_number("4294967295"), Some(4294967295));
    assert_eq!(parse_page_number("4294967296"), None);
    assert_eq!(parse_page_number("99999999999999999999"), None);
    assert_eq!(parse_page_number(""), None);
    assert_eq!(parse_page_number("12a"), None);
    assert_eq!(parse_page_number("+5"), None);
    assert_eq!(parse_page_number("\u{0663}"), None);
}

#[test]
fn last_page_number_takes_the_last_capture() {
    assert_eq!(last_page_number(&vec!["2".to_string(), "34".to_string()]), Ok(34));
    assert_eq!(last_page_number(&vec!["34".to_string(), "2".to_string()]), Ok(2));
    assert_eq!(last_page_number(&vec![]), Err(ErrorKind::MalformedResponse));
    assert_eq!(last_page_number(&vec!["2".to_string(), "\u{0663}".to_string()]), Err(ErrorKind::MalformedResponse));
}

#[test]
fn total_pages_reads_the_link_header() {
    assert_eq!(total_pages(&Some(GITHUB_LINK.to_string())), Ok(3));
    let big = "<https://x/y?page=2>; rel=\"next\", <https://x/y?page=34>; rel=\"last\"";
    assert_eq!(total_pages(&Some(big.to_string())), Ok(34));
    assert_eq!(total_pages(&None), Err(ErrorKind::MissingPaginationHeader));
    assert_eq!(total_pages(&Some("<https://x/y>; rel=\"next\"".to_string())), Err(ErrorKind::MalformedResponse));
    assert_eq!(total_pages(&Some("page=".to_string())), Err(ErrorKind::MalformedResponse));
}

#[test]
fn join_pages_keeps_every_item_once() {
    let first = vec![item(1, Some("Go")), item(2, None)];
    let rest = vec![Ok(vec![item(3, Some("Rust"))]), Ok(vec![item(4, Some("Go")), item(5, Some("C"))])];
    let all = join_pages(first, &rest).unwrap();
    assert_eq!(ids(&all), vec![1, 2, 3, 4, 5]);
}

#[test]
fn join_pages_fails_on_any_failed_page() {
    let first = vec![item(1, Some("Go"))];
    let rest = vec![Ok(vec![item(3, Some("Rust"))]), Err(ErrorKind::UpstreamUnavailable)];
    assert_eq!(join_pages(first, &rest), Err(ErrorKind::UpstreamUnavailable));
    let rest = vec![Err(ErrorKind::MalformedResponse), Err(ErrorKind::UpstreamUnavailable)];
    assert_eq!(join_pages(vec![], &rest), Err(ErrorKind::MalformedResponse));
}

#[test]
fn store_finds_live_entries_only() {
    let mut s = CredentialStore::new();
    s.put("st".to_string(), "cred".to_string(), 3600, 1000);
    assert_eq!(s.get("st", 1000), Some("cred".to_string()));
    assert_eq!(s.get("st", 4599), Some("cred".to_string()));
    assert_eq!(s.get("st", 4600), None);
    assert_eq!(s.get("other", 1000), None);
}

#[test]
fn store_entry_with_zero_ttl_is_never_live() {
    let mut s = CredentialStore::new();
    s.put("st".to_string(), "cred".to_string(), 0, 50);
    assert_eq!(s.get("st", 50), None);
    assert_eq!(s.get("st", 51), None);
}

#[test]
fn store_put_overwrites() {
    let mut s = CredentialStore::new();
    s.put("a".to_string(), "one".to_string(), 10, 0);
    s.put("b".to_string(), "bee".to_string(), 10, 0);
    s.put("a".to_string(), "two".to_string(), 100, 5);
    assert_eq!(s.get("a", 50), Some("two".to_string()));
    assert_eq!(s.get("b", 5), Some("bee".to_string()));
    assert_eq!(s.get("b", 10), None);
}

#[test]
fn store_handles_the_end_of_the_clock() {
    let mut s = CredentialStore::new();
    s.put("a".to_string(), "x".to_string(), u64::MAX, u64::MAX - 1);
    assert_eq!(s.get("a", u64::MAX), Some("x".to_string()));
}

#[test]
fn token_encodes_bytes_url_safe_without_padding() {
    assert_eq!(token_from_bytes(&[0u8; 16]), "AAAAAAAAAAAAAAAAAAAAAA");
    assert_eq!(token_from_bytes(&[0xffu8; 16]), "_____________________w");
    let mut b = [0u8; 16];
    b[0] = 0xfb;
    b[1] = 0xef;
    assert_eq!(&token_from_bytes(&b)[..4], "--8A");
}

#[test]
fn new_states_differ() {
    let mut seen: Vec<String> = Vec::new();
    let mut prev = new_state();
    for _ in 0..500 {
        let next = new_state();
        assert_ne!(prev, next);
        assert_eq!(next.len(), 22);
        assert!(next.chars().all(|c| c.is_ascii_alphanumeric() || c == '-' || c == '_'));
        seen.push(prev);
        prev = next;
    }
    seen.sort();
    seen.dedup();
    assert_eq!(seen.len(), 500);
}

#[test]
fn error_envelopes() {
    assert_eq!(ErrorKind::Unauthorized.status(), 4);
    assert_eq!(ErrorKind::ExchangeFailed.status(), 0);
    assert_eq!(ErrorKind::StoreUnavailable.status(), 0);
    let m = Message::from_error(ErrorKind::Unauthorized);
    assert_eq!((m.status, m.message.as_str()), (4, "unauthorized"));
    let m = Message::from_error(ErrorKind::ExchangeFailed);
    assert_eq!((m.status, m.message.as_str()), (0, "error when acquire token"));
    let m = Message::from_error(ErrorKind::StoreUnavailable);
    assert_eq!(m.message, "error connect to database");
    assert_eq!(ErrorKind::UpstreamUnavailable.message(), "error when request");
    assert_eq!(ErrorKind::MissingPaginationHeader.message(), "missing pagination header");
    assert_eq!(ErrorKind::MalformedResponse.message(), "malformed response");
}

#[test]
fn callback_binds_credential_then_redirects() {
    let (mut h, a) = CallbackHandler::start("code1".to_string(), "st".to_string());
    assert!(matches!(a, CallbackAction::Exchange { ref code } if code == "code1"));
    match h.on_exchange(Some("tok123".to_string())) {
        CallbackAction::Store { token, credential, ttl_seconds } => {
            assert_eq!((token.as_str(), credential.as_str(), ttl_seconds), ("st", "tok123", 3600));
        }
        other => panic!("unexpected {:?}", other),
    }
    assert_eq!(h.phase, CallbackPhase::Storing);
    assert!(matches!(h.on_store(true), CallbackAction::Redirect { ref target } if target == "/"));
    assert_eq!(h.phase, CallbackPhase::Finished);
}

#[test]
fn callback_failures() {
    let (mut h, _) = CallbackHandler::start("c".to_string(), "st".to_string());
    assert!(matches!(h.on_exchange(None), CallbackAction::Fail { error: ErrorKind::ExchangeFailed }));
    let (mut h, _) = CallbackHandler::start("c".to_string(), "st".to_string());
    h.on_exchange(Some("t".to_string()));
    assert!(matches!(h.on_store(false), CallbackAction::Fail { error: ErrorKind::StoreUnavailable }));
}

#[test]
fn analyze_unknown_token_is_unauthorized_without_fetch() {
    let (mut o, a) = AnalyzeOrchestrator::start("nope".to_string());
    assert!(matches!(a, AnalyzeAction::LookUp { ref token } if token == "nope"));
    let a = o.on_lookup(Lookup::Missing);
    assert!(matches!(a, AnalyzeAction::Reply { result: Err(ErrorKind::Unauthorized) }));
    assert_eq!(o.phase, AnalyzePhase::Finished);
    let (mut o, _) = AnalyzeOrchestrator::start("x".to_string());
    assert!(matches!(o.on_lookup(Lookup::Unreachable), AnalyzeAction::Reply { result: Err(ErrorKind::StoreUnavailable) }));
}

fn three_pages(o: &mut AnalyzeOrchestrator, lookup: Lookup) {
    match o.on_lookup(lookup) {
        AnalyzeAction::FetchFirst { credential } => assert_eq!(credential, "tok123"),
        other => panic!("unexpected {:?}", other),
    }
    let page = FirstPage {
        link: Some(GITHUB_LINK.to_string()),
        items: Some(vec![item(1, Some("Go")), item(2, Some("Rust"))]),
    };
    match o.on_first_page(Some(page)) {
        AnalyzeAction::FetchPages { credential, first, last } => {
            assert_eq!((credential.as_str(), first, last), ("tok123", 2, 3));
        }
        other => panic!("unexpected {:?}", other),
    }
}

#[test]
fn analyze_fetches_all_pages_and_counts() {
    let (mut o, _) = AnalyzeOrchestrator::start("st".to_string());
    three_pages(&mut o, Lookup::Found("tok123".to_string()));
    let rest = vec![
        Ok(vec![item(3, Some("Go")), item(4, None)]),
        Ok(vec![item(5, Some("C")), item(6, Some("Go"))]),
    ];
    match o.on_pages(rest) {
        AnalyzeAction::Reply { result: Ok(t) } => {
            assert_eq!(sorted(t), pairs(&[("C", 1), ("Go", 3), ("Rust", 1)]));
        }
        other => panic!("unexpected {:?}", other),
    }
}

#[test]
fn analyze_fails_whole_when_a_page_fails() {
    let (mut o, _) = AnalyzeOrchestrator::start("st".to_string());
    three_pages(&mut o, Lookup::Found("tok123".to_string()));
    let rest = vec![Ok(vec![item(3, Some("Go"))]), Err(ErrorKind::UpstreamUnavailable)];
    assert!(matches!(o.on_pages(rest), AnalyzeAction::Reply { result: Err(ErrorKind::UpstreamUnavailable) }));
}

#[test]
fn analyze_first_page_failures() {
    let start = || {
        let (mut o, _) = AnalyzeOrchestrator::start("st".to_string());
        o.on_lookup(Lookup::Found("c".to_string()));
        o
    };
    assert!(matches!(start().on_first_page(None), AnalyzeAction::Reply { result: Err(ErrorKind::UpstreamUnavailable) }));
    let p = FirstPage { link: None, items: Some(vec![]) };
    assert!(matches!(start().on_first_page(Some(p)), AnalyzeAction::Reply { result: Err(ErrorKind::MissingPaginationHeader) }));
    let p = FirstPage { link: Some("rel=\"last\"".to_string()), items: Some(vec![]) };
    assert!(matches!(start().on_first_page(Some(p)), AnalyzeAction::Reply { result: Err(ErrorKind::MalformedResponse) }));
    let p = FirstPage { link: Some(GITHUB_LINK.to_string()), items: None };
    assert!(matches!(start().on_first_page(Some(p)), AnalyzeAction::Reply { result: Err(ErrorKind::MalformedResponse) }));
}

#[test]
fn analyze_single_page_counts_at_once() {
    let (mut o, _) = AnalyzeOrchestrator::start("st".to_string());
    o.on_lookup(Lookup::Found("c".to_string()));
    let p = FirstPage {
        link: Some("<https://x/y?page=1>; rel=\"last\"".to_string()),
        items: Some(vec![item(1, Some("Go")), item(2, None)]),
    };
    match o.on_first_page(Some(p)) {
        AnalyzeAction::Reply { result: Ok(t) } => assert_eq!(sorted(t), pairs(&[("Go", 1)])),
        other => panic!("unexpected {:?}", other),
    }
    assert_eq!(o.phase, AnalyzePhase::Finished);
}

#[test]
fn end_to_end_token_callback_analyze() {
    let mut store = CredentialStore::new();
    let now: u64 = 10_000;
    let state = new_state();

    let (mut cb, _) = CallbackHandler::start("code".to_string(), state.clone());
    // the stub exchanger answers with "tok123"
    match cb.on_exchange(Some("tok123".to_string())) {
        CallbackAction::Store { token, credential, ttl_seconds } => {
            assert_eq!(ttl_seconds, CREDENTIAL_TTL_SECONDS);
            store.put(token, credential, ttl_seconds, now);
        }
        other => panic!("unexpected {:?}", other),
    }
    assert!(matches!(cb.on_store(true), CallbackAction::Redirect { .. }));
    assert_eq!(store.get(&state, now + 1), Some("tok123".to_string()));

    let (mut o, a) = AnalyzeOrchestrator::start(state.clone());
    let token = match a {
        AnalyzeAction::LookUp { token } => token,
        other => panic!("unexpected {:?}", other),
    };
    let lookup = match store.get(&token, now + 2) {
        Some(c) => Lookup::Found(c),
        None => Lookup::Missing,
    };
    three_pages(&mut o, lookup);
    let rest = vec![Ok(vec![item(7, Some("Rust"))]), Ok(vec![item(8, Some("Haskell"))])];
    match o.on_pages(rest) {
        AnalyzeAction::Reply { result: Ok(t) } => {
            assert_eq!(sorted(t), pairs(&[("Go", 1), ("Haskell", 1), ("Rust", 2)]));
        }
        other => panic!("unexpected {:?}", other),
    }
    assert_eq!(store.get(&state, now + CREDENTIAL_TTL_SECONDS), None);
}
