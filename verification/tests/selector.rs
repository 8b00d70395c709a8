use webscraper::error::ScrapeError;
use webscraper::extract::extract_all;
use webscraper::selector::{compile, match_nodes, parse_document, MAX_MARKUP_CHARS};

#[test]
fn a_malformed_selector_is_refused() {
    for text in ["div[", "", "p >", "a:::b", "#"] {
        match compile(text) {
            Err(ScrapeError::SelectorSyntax { selector }) => assert_eq!(selector, text),
            Err(_) => panic!("another error for {:?}", text),
            Ok(_) => panic!("{:?} was accepted", text),
        }
    }
}

#[test]
fn a_well_formed_selector_keeps_its_text() {
    for text in ["h1", ".price", "a.link", "ul > li:nth-child(2)", "a[href^='/x'], p"] {
        let expression = compile(text).ok().expect("a selector");
        assert_eq!(expression.text(), text);
    }
}

#[test]
fn matches_come_in_document_order() {
    let document = parse_document(
        "<html><body><div><p class=\"n\">N1</p><section><p class=\"n\">N2</p></section></div><p class=\"n\">N3</p></body></html>",
    ).expect("a document");
    let expression = compile("p.n").ok().expect("a selector");
    let nodes = match_nodes(&document, &expression);
    assert_eq!(nodes.len(), 3);
    assert_eq!(nodes[0].texts, vec!["N1".to_string()]);
    assert_eq!(nodes[1].texts, vec!["N2".to_string()]);
    assert_eq!(nodes[2].texts, vec!["N3".to_string()]);
    let elements = extract_all(&nodes);
    let texts: Vec<&str> = elements.iter().map(|element| element.text()).collect();
    assert_eq!(texts, vec!["N1", "N2", "N3"]);
}

#[test]
fn a_node_hands_out_its_descendant_texts_and_own_attributes() {
    let document = parse_document(
        "<div id=\"outer\"><a href=\"/x\" class=\"c\">Hello <b title=\"inner\">big</b> world</a></div>",
    ).expect("a document");
    let expression = compile("a").ok().expect("a selector");
    let nodes = match_nodes(&document, &expression);
    assert_eq!(nodes.len(), 1);
    assert_eq!(
        nodes[0].texts,
        vec!["Hello ".to_string(), "big".to_string(), " world".to_string()]
    );
    let mut attributes = nodes[0].attributes.clone();
    attributes.sort();
    assert_eq!(
        attributes,
        vec![("class".to_string(), "c".to_string()), ("href".to_string(), "/x".to_string())]
    );
    let elements = extract_all(&nodes);
    assert_eq!(elements[0].text(), "Hello  big  world");
    assert_eq!(elements[0].attribute("href"), Some("/x"));
    assert_eq!(elements[0].attribute("title"), None);
}

#[test]
fn no_match_is_an_empty_list() {
    let document = parse_document("<p>text</p>").expect("a document");
    let expression = compile("h6").ok().expect("a selector");
    assert!(match_nodes(&document, &expression).is_empty());
}

#[test]
fn empty_elements_are_matched_but_give_no_record() {
    let document = parse_document("<ul><li></li><li>  </li><li id=\"x\"></li><li>y</li></ul>").expect("a document");
    let expression = compile("li").ok().expect("a selector");
    let nodes = match_nodes(&document, &expression);
    assert_eq!(nodes.len(), 4);
    let elements = extract_all(&nodes);
    assert_eq!(elements.len(), 2);
    assert_eq!(elements[0].attribute("id"), Some("x"));
    assert_eq!(elements[1].text(), "y");
}

#[test]
fn markup_beyond_the_limit_gives_no_document() {
    assert_eq!(MAX_MARKUP_CHARS, 0x0fff_ffff);
    assert!(parse_document("").is_some());
    let long = "a".repeat(MAX_MARKUP_CHARS + 1);
    assert!(parse_document(&long).is_none());
}
