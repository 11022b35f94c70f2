use bangs::resolver::get_redirect_location;
use bangs::table::{ShortcutEntry, ShortcutTable};
use bangs::text::{join_words, split_words, str_eq, subst_str};

#[test]
fn search_template_with_one_word() {
    assert_eq!(
        get_redirect_location("!rust+Vec"),
        "https://doc.rust-lang.org/std/?search=Vec"
    );
}

#[test]
fn lone_token_goes_to_site() {
    assert_eq!(get_redirect_location("!gh"), "https://github.com/");
}

#[test]
fn search_template_with_many_words() {
    assert_eq!(
        get_redirect_location("!gh+rust+http"),
        "https://github.com/search?q=rust+http"
    );
}

#[test]
fn no_token_falls_back_to_default_search() {
    assert_eq!(
        get_redirect_location("hello+world"),
        "https://duckduckgo.com/?q=hello+world"
    );
}

#[test]
fn empty_query_falls_back_to_default_search() {
    assert_eq!(get_redirect_location(""), "https://duckduckgo.com/?q=");
}

#[test]
fn leftmost_token_wins() {
    assert_eq!(
        get_redirect_location("!gh+!rust"),
        "https://github.com/search?q=!rust"
    );
}

#[test]
fn leftmost_token_wins_in_the_middle() {
    assert_eq!(
        get_redirect_location("a+!gh+!g+b"),
        "https://github.com/search?q=a+!g+b"
    );
}

#[test]
fn token_in_the_middle_is_removed_from_residual() {
    assert_eq!(
        get_redirect_location("hello+!g+world"),
        "https://google.com/search?q=hello+world"
    );
}

#[test]
fn lone_token_without_site_searches_empty() {
    assert_eq!(
        get_redirect_location("!rust"),
        "https://doc.rust-lang.org/std/?search="
    );
}

#[test]
fn token_with_empty_rest_searches_empty() {
    assert_eq!(get_redirect_location("!g+"), "https://google.com/search?q=");
}

#[test]
fn word_without_sentinel_is_no_token() {
    assert_eq!(
        get_redirect_location("rust+search"),
        "https://duckduckgo.com/?q=rust+search"
    );
}

#[test]
fn tokens_are_case_sensitive() {
    assert_eq!(get_redirect_location("!GH"), "https://duckduckgo.com/?q=!GH");
}

#[test]
fn tokens_match_exactly_not_by_prefix() {
    assert_eq!(get_redirect_location("!g+x"), "https://google.com/search?q=x");
    assert_eq!(get_redirect_location("!gh+x"), "https://github.com/search?q=x");
    assert_eq!(get_redirect_location("!ghx"), "https://duckduckgo.com/?q=!ghx");
}

#[test]
fn lookup_twice_yields_identical_results() {
    let t = ShortcutTable::default_table();
    let a = t.lookup("!gh").expect("token is in the table");
    let b = t.lookup("!gh").expect("token is in the table");
    assert_eq!(a.token, b.token);
    assert_eq!(a.site, b.site);
    assert_eq!(a.search, b.search);
    assert!(t.lookup("!nope").is_none());
    assert!(t.lookup("!nope").is_none());
}

#[test]
fn lookup_finds_the_exact_token_only() {
    let t = ShortcutTable::default_table();
    assert!(t.lookup("!gh").is_some());
    assert!(t.lookup("gh").is_none());
    assert!(t.lookup("!GH").is_none());
    assert!(t.lookup("!g").is_some());
    assert_eq!(t.lookup("!g").unwrap().site.as_deref(), Some("https://google.com/"));
}

#[test]
fn site_only_entry_is_unusable_for_searches() {
    let mut t = ShortcutTable::empty();
    let added = t.add_entry(ShortcutEntry {
        token: "!s".to_string(),
        site: Some("https://site.example/".to_string()),
        search: None,
    });
    assert!(added);
    assert_eq!(t.resolve("!s"), "https://site.example/");
    assert_eq!(t.resolve("!s+x"), "https://duckduckgo.com/?q=!s+x");
}

#[test]
fn entry_without_templates_is_refused() {
    let mut t = ShortcutTable::empty();
    let added = t.add_entry(ShortcutEntry {
        token: "!none".to_string(),
        site: None,
        search: None,
    });
    assert!(!added);
    assert!(t.lookup("!none").is_none());
}

#[test]
fn duplicate_token_is_refused() {
    let mut t = ShortcutTable::empty();
    assert!(t.add_entry(ShortcutEntry {
        token: "!a".to_string(),
        site: Some("https://first.example/".to_string()),
        search: None,
    }));
    assert!(!t.add_entry(ShortcutEntry {
        token: "!a".to_string(),
        site: Some("https://second.example/".to_string()),
        search: None,
    }));
    assert_eq!(t.resolve("!a"), "https://first.example/");
}

#[test]
fn empty_table_always_defaults() {
    let t = ShortcutTable::empty();
    assert_eq!(t.resolve("!gh"), "https://duckduckgo.com/?q=!gh");
}

#[test]
fn substitution_fills_the_first_placeholder_only() {
    assert_eq!(subst_str("abc%sdef", "X"), "abcXdef");
    assert_eq!(subst_str("%s%s", "A"), "A%s");
    assert_eq!(subst_str("no-placeholder", "A"), "no-placeholder");
    assert_eq!(subst_str("%s", "everything"), "everything");
    assert_eq!(subst_str("", "A"), "");
}

#[test]
fn split_and_join_round_trip() {
    let words = split_words("a+b+c");
    let strs: Vec<&str> = words.iter().map(|w| w.as_str()).collect();
    assert_eq!(strs, ["a", "b", "c"]);
    assert_eq!(join_words(&words, 0), "a+b+c");
    assert_eq!(join_words(&words, 1), "b+c");

    let lone = split_words("");
    let strs: Vec<&str> = lone.iter().map(|w| w.as_str()).collect();
    assert_eq!(strs, [""]);
    assert_eq!(join_words(&lone, 0), "");

    let edges = split_words("+x+");
    let strs: Vec<&str> = edges.iter().map(|w| w.as_str()).collect();
    assert_eq!(strs, ["", "x", ""]);
    assert_eq!(join_words(&edges, 0), "+x+");
}

#[test]
fn string_equality_is_by_characters() {
    assert!(str_eq("!gh", "!gh"));
    assert!(!str_eq("!gh", "!g"));
    assert!(!str_eq("!gh", "!GH"));
    assert!(str_eq("", ""));
}
