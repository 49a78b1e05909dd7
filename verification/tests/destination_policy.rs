use connect_proxy::policy::{
    decide, should_block, ListKind, PatternList, Policy, ALLOW_LIST, DENY_LIST,
};

#[test]
fn builtin_policy_lets_listed_destinations_through() {
    let policy = Policy::builtin().unwrap();
    assert!(!should_block(&policy, "localhost:5555"));
    assert!(!should_block(&policy, "api.spotify.com:443"));
    assert!(!should_block(&policy, "audio-sp-abc.pscdn.co:443"));
    assert!(!should_block(&policy, "gew1-spclient.spotify.com:443"));
    assert!(!should_block(&policy, "i.scdn.co:443"));
}

#[test]
fn builtin_policy_blocks_what_is_not_listed() {
    let policy = Policy::builtin().unwrap();
    assert!(should_block(&policy, "example.com:443"));
    assert!(should_block(&policy, "en.wikipedia.org:443"));
    assert!(should_block(&policy, "adclick.g.doubleclick.net:443"));
    assert!(should_block(&policy, ""));
}

#[test]
fn builtin_tables_have_their_sizes() {
    assert_eq!(ALLOW_LIST.len(), 68);
    assert_eq!(DENY_LIST.len(), 3);
    assert_eq!(ALLOW_LIST[0], "localhost");
    assert_eq!(ALLOW_LIST[67], r"dovetail-cdn\.prxu\.org");
    assert_eq!(DENY_LIST[0], r"https://spclient\.wg\.spotify\.com/ads/.*");
}

#[test]
fn deny_list_never_changes_the_answer() {
    let policy = Policy::builtin().unwrap();
    // On the deny list and on the allow list: let through.
    let denied = "https://spclient.wg.spotify.com/ads/1";
    assert!(policy.in_deny_list(denied));
    assert!(policy.in_allow_list(denied));
    assert!(!should_block(&policy, denied));

    let allow = ["good\\.example"];
    let without = Policy::new(&allow, &[]).unwrap();
    let with = Policy::new(&allow, &["good\\.example", "bad\\.example", ".*"]).unwrap();
    for destination in ["good.example:443", "bad.example:443", "other:1", ""] {
        assert_eq!(should_block(&without, destination), should_block(&with, destination));
        assert_eq!(should_block(&with, destination), !with.in_allow_list(destination));
    }
    assert!(with.in_deny_list("good.example:443"));
    assert!(!should_block(&with, "good.example:443"));
    assert!(should_block(&with, "bad.example:443"));
}

#[test]
fn decision_is_the_negated_allow_list() {
    assert!(!decide(true, false));
    assert!(!decide(true, true));
    assert!(decide(false, false));
    assert!(decide(false, true));
}

#[test]
fn asking_twice_gives_the_same_answer() {
    let policy = Policy::builtin().unwrap();
    for destination in ["localhost:80", "example.com:443", "api.spotify.com:443"] {
        let first = should_block(&policy, destination);
        for _ in 0..5 {
            assert_eq!(should_block(&policy, destination), first);
        }
    }
}

#[test]
fn patterns_are_searched_for_in_the_whole_destination() {
    let policy = Policy::new(&["^bare\\.host$", "part"], &[]).unwrap();
    // The port is part of the destination, so an anchored host name misses it.
    assert!(should_block(&policy, "bare.host:443"));
    assert!(!should_block(&policy, "bare.host"));
    // A pattern matches anywhere in the destination.
    assert!(!should_block(&policy, "a.partial.example:80"));
    // The dot of a pattern is the wildcard unless escaped.
    let loose = Policy::new(&["a.c"], &[]).unwrap();
    assert!(!should_block(&loose, "abc:1"));
    let strict = Policy::new(&["a\\.c"], &[]).unwrap();
    assert!(should_block(&strict, "abc:1"));
    assert!(!should_block(&strict, "a.c:1"));
}

#[test]
fn empty_policy_blocks_everything() {
    let policy = Policy::new(&[], &[]).unwrap();
    assert!(should_block(&policy, "localhost:1"));
    assert!(!policy.in_deny_list("localhost:1"));
}

#[test]
fn refused_pattern_is_reported_with_its_list_and_place() {
    let error = Policy::new(&["ok", "(", "["], &["fine"]).unwrap_err();
    assert_eq!(error.list, ListKind::Allow);
    assert_eq!(error.error.index, 1);
    assert_eq!(error.error.cause, regex::Regex::new("(").unwrap_err());

    let error = Policy::new(&["ok"], &["fine", "also", "a{"]).unwrap_err();
    assert_eq!(error.list, ListKind::Deny);
    assert_eq!(error.error.index, 2);
}

#[test]
fn pattern_list_grows_by_what_was_compiled() {
    let list = PatternList::new();
    assert_eq!(list.len(), 0);
    assert!(!list.is_match("anything"));
    let list = list.with(regex::Regex::new("b+")).unwrap();
    let list = list.with(regex::Regex::new("^x")).unwrap();
    assert_eq!(list.len(), 2);
    assert!(list.is_match("abba"));
    assert!(list.is_match("xyz"));
    assert!(!list.is_match("ayz"));
    let error = list.with(regex::Regex::new("(")).unwrap_err();
    assert_eq!(error.index, 2);
}

#[test]
fn pattern_list_compiles_in_order() {
    let list = PatternList::compile(&["one", "two", "three"]).unwrap();
    assert_eq!(list.len(), 3);
    assert!(list.is_match("twofold"));
    assert!(!list.is_match("four"));
    assert_eq!(PatternList::compile(&["one", "*"]).unwrap_err().index, 1);
    assert_eq!(PatternList::compile(&[]).unwrap().len(), 0);
}
