use webscraper::policy::{
    applicable, classify, decide, evaluate, parse_rules, AgentMatcher, Directive, ExclusionRule,
};

#[test]
fn wildcard_block_disallows_prefixed_path() {
    let document = "User-agent: *\nDisallow: /admin";
    let decision = evaluate(document, "AnyBot", "/admin/users");
    assert!(!decision.allowed());
    let rule = decision.matched_rule().expect("a rule decides");
    assert_eq!(rule.disallowed_path_prefix(), "/admin");
    assert!(matches!(rule.applies_to(), AgentMatcher::Wildcard));
}

#[test]
fn wildcard_block_allows_other_path() {
    let document = "User-agent: *\nDisallow: /admin";
    let decision = evaluate(document, "AnyBot", "/public");
    assert!(decision.allowed());
    assert!(decision.matched_rule().is_none());
}

#[test]
fn new_block_resets_scope() {
    let document = "User-agent: GoodBot\nDisallow: /x\nUser-agent: *\n";
    let decision = evaluate(document, "OtherBot", "/x");
    assert!(decision.allowed());
    assert!(decision.matched_rule().is_none());
}

#[test]
fn named_block_applies_without_regard_to_case() {
    let document = "User-agent: GoodBot\nDisallow: /x\nUser-agent: *\n";
    let decision = evaluate(document, "goodbot", "/x/y");
    assert!(!decision.allowed());
    let rule = decision.matched_rule().expect("a rule decides");
    assert_eq!(rule.disallowed_path_prefix(), "/x");
    match rule.applies_to() {
        AgentMatcher::Literal(name) => assert_eq!(name, "GoodBot"),
        AgentMatcher::Wildcard => panic!("the block names an agent"),
    }
}

#[test]
fn evaluation_repeats() {
    let document = "# rules\nUser-agent: a\nDisallow: /p\n\nUser-agent: *\nDisallow: /q\n";
    for (agent, path) in [("a", "/p/1"), ("A", "/q"), ("b", "/p"), ("b", "/q/2"), ("b", "/")] {
        let first = evaluate(document, agent, path);
        let second = evaluate(document, agent, path);
        assert_eq!(first.allowed(), second.allowed());
        assert_eq!(
            first.matched_rule().map(|rule| rule.disallowed_path_prefix().to_string()),
            second.matched_rule().map(|rule| rule.disallowed_path_prefix().to_string())
        );
    }
    assert!(!evaluate(document, "a", "/p/1").allowed());
    assert!(!evaluate(document, "A", "/q").allowed());
    assert!(evaluate(document, "A", "/other").allowed());
    assert!(evaluate(document, "b", "/p").allowed());
    assert!(!evaluate(document, "b", "/q/2").allowed());
    assert!(evaluate(document, "b", "/").allowed());
}

#[test]
fn empty_disallow_gives_no_rule() {
    let rules = parse_rules("User-agent: *\nDisallow:\nDisallow:   \n");
    assert!(rules.is_empty());
    assert!(evaluate("User-agent: *\nDisallow:", "bot", "/anything").allowed());
}

#[test]
fn disallow_before_any_block_gives_no_rule() {
    let rules = parse_rules("Disallow: /early\nUser-agent: *\nDisallow: /late");
    assert_eq!(rules.len(), 1);
    assert_eq!(rules[0].disallowed_path_prefix(), "/late");
}

#[test]
fn keywords_are_case_sensitive() {
    assert!(matches!(classify("user-agent: *"), Directive::Other));
    assert!(matches!(classify("DISALLOW: /x"), Directive::Other));
    assert!(matches!(classify("# comment"), Directive::Other));
    assert!(matches!(classify(""), Directive::Other));
    assert!(matches!(classify("Allow: /x"), Directive::Other));
}

#[test]
fn lines_are_trimmed_and_values_run_to_the_end_of_the_line() {
    match classify("  \tUser-agent:   Some Bot  \r") {
        Directive::UserAgent(value) => assert_eq!(value, "Some Bot"),
        _ => panic!("a user-agent line"),
    }
    match classify("Disallow: /a:b") {
        Directive::Disallow(value) => assert_eq!(value, "/a:b"),
        _ => panic!("a disallow line"),
    }
    match classify("User-agent: bot:2 ") {
        Directive::UserAgent(value) => assert_eq!(value, "bot:2"),
        _ => panic!("a user-agent line"),
    }
    match classify("Disallow: http://example.com/x") {
        Directive::Disallow(value) => assert_eq!(value, "http://example.com/x"),
        _ => panic!("a disallow line"),
    }
    match classify("Disallow:/tight") {
        Directive::Disallow(value) => assert_eq!(value, "/tight"),
        _ => panic!("a disallow line"),
    }
}

#[test]
fn carriage_returns_are_white_space() {
    let document = "User-agent: *\r\nDisallow: /admin\r\n";
    assert!(!evaluate(document, "bot", "/admin").allowed());
    let rules = parse_rules(document);
    assert_eq!(rules.len(), 1);
    assert_eq!(rules[0].disallowed_path_prefix(), "/admin");
}

#[test]
fn first_matching_rule_is_reported() {
    let document = "User-agent: *\nDisallow: /a\nDisallow: /a/b\nDisallow: /";
    let decision = evaluate(document, "bot", "/a/b/c");
    assert_eq!(decision.matched_rule().unwrap().disallowed_path_prefix(), "/a");
    let decision = evaluate(document, "bot", "/z");
    assert_eq!(decision.matched_rule().unwrap().disallowed_path_prefix(), "/");
}

#[test]
fn applicable_keeps_order_and_decide_takes_the_first() {
    let rules = parse_rules(
        "User-agent: one\nDisallow: /1\nUser-agent: two\nDisallow: /2\nUser-agent: *\nDisallow: /3\nUser-agent: ONE\nDisallow: /4",
    );
    assert_eq!(rules.len(), 4);
    let mine = applicable(&rules, "One");
    let prefixes: Vec<&str> = mine.iter().map(|rule| rule.disallowed_path_prefix()).collect();
    assert_eq!(prefixes, vec!["/1", "/3", "/4"]);
    let decision = decide(&mine, "/4/x");
    assert_eq!(decision.matched_rule().unwrap().disallowed_path_prefix(), "/4");
    assert!(decide(&mine, "/2").allowed());
}

#[test]
fn case_folding_follows_unicode() {
    let matcher = AgentMatcher::from_value("ÄRGER-Bot");
    assert!(matcher.covers("ärger-bot"));
    assert!(!matcher.covers("arger-bot"));
    assert!(matcher.covers_folded("x", "x"));
    assert!(!matcher.covers_folded("x", "y"));
    assert!(AgentMatcher::Wildcard.covers_folded("x", "y"));
    assert!(matches!(AgentMatcher::from_value("*"), AgentMatcher::Wildcard));
    assert!(matches!(AgentMatcher::from_value("**"), AgentMatcher::Literal(_)));
}

#[test]
fn a_rule_needs_a_prefix() {
    assert!(ExclusionRule::new(AgentMatcher::Wildcard, String::new()).is_none());
    let rule = ExclusionRule::new(AgentMatcher::Wildcard, "/p".to_string()).unwrap();
    assert!(rule.blocks(&"/p/q".chars().collect::<Vec<char>>()));
    assert!(!rule.blocks(&"/".chars().collect::<Vec<char>>()));
    let copy = rule.duplicate();
    assert_eq!(copy.disallowed_path_prefix(), "/p");
}

#[test]
fn a_colon_in_a_value_belongs_to_the_value() {
    let document = "User-agent: *\nDisallow: /a:b";
    assert!(evaluate(document, "Bot", "/ax").allowed());
    assert!(evaluate(document, "Bot", "/a").allowed());
    let decision = evaluate(document, "Bot", "/a:b/c");
    assert!(!decision.allowed());
    assert_eq!(decision.matched_rule().unwrap().disallowed_path_prefix(), "/a:b");

    let document = "User-agent: bot:2\nDisallow: /x";
    assert!(!evaluate(document, "BOT:2", "/x").allowed());
    assert!(evaluate(document, "bot", "/x").allowed());
}
