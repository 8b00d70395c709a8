use webscraper::extract::{
    collect_attributes, extract, extract_all, join_texts, ExtractedElement, MatchedNode,
};

fn node(texts: &[&str], attributes: &[(&str, &str)]) -> MatchedNode {
    MatchedNode {
        texts: texts.iter().map(|text| text.to_string()).collect(),
        attributes: attributes
            .iter()
            .map(|(name, value)| (name.to_string(), value.to_string()))
            .collect(),
    }
}

fn pair(name: &str, value: &str) -> (String, String) {
    (name.to_string(), value.to_string())
}

#[test]
fn node_without_text_and_attributes_is_dropped() {
    assert!(extract(&node(&[], &[])).is_none());
    assert!(extract(&node(&[""], &[])).is_none());
}

#[test]
fn node_with_only_attributes_is_kept() {
    let element = extract(&node(&[], &[("href", "/x")])).expect("a record");
    assert_eq!(element.text(), "");
    assert_eq!(element.attributes(), &vec![pair("href", "/x")]);
    assert_eq!(element.attribute("href"), Some("/x"));
    assert_eq!(element.attribute("class"), None);
}

#[test]
fn node_with_only_white_space_is_dropped() {
    assert!(extract(&node(&["   "], &[])).is_none());
    assert!(extract(&node(&[" \n", "\t", "\u{00A0}"], &[])).is_none());
}

#[test]
fn white_space_text_with_attributes_is_kept_with_empty_text() {
    let element = extract(&node(&["  ", "\n"], &[("id", "a")])).expect("a record");
    assert_eq!(element.text(), "");
    assert_eq!(element.attribute("id"), Some("a"));
}

#[test]
fn texts_are_joined_by_one_space_and_trimmed() {
    let element = extract(&node(&[" Hello ", "big", " world\n"], &[])).expect("a record");
    assert_eq!(element.text(), "Hello  big  world");
    let element = extract(&node(&["a", "b", "c"], &[])).expect("a record");
    assert_eq!(element.text(), "a b c");
    let element = extract(&node(&["single"], &[])).expect("a record");
    assert_eq!(element.text(), "single");
    let joined: String = join_texts(&["x".to_string(), "".to_string(), "y".to_string()])
        .into_iter()
        .collect();
    assert_eq!(joined, "x  y");
    assert!(join_texts(&[]).is_empty());
}

#[test]
fn attribute_values_are_kept_as_they_are() {
    let element = extract(&node(&["t"], &[("data-n", " 007 "), ("empty", "")])).expect("a record");
    assert_eq!(element.attribute("data-n"), Some(" 007 "));
    assert_eq!(element.attribute("empty"), Some(""));
}

#[test]
fn a_later_attribute_replaces_an_earlier_one_of_the_same_name() {
    let kept = collect_attributes(&[pair("k", "1"), pair("j", "2"), pair("k", "3")]);
    assert_eq!(kept, vec![pair("k", "3"), pair("j", "2")]);
    let element =
        extract(&node(&[], &[("k", "1"), ("j", "2"), ("k", "3")])).expect("a record");
    assert_eq!(element.attributes().len(), 2);
    assert_eq!(element.attribute("k"), Some("3"));
    assert_eq!(element.attribute("j"), Some("2"));
    assert!(collect_attributes(&[]).is_empty());
}

#[test]
fn extraction_keeps_the_order_of_the_nodes() {
    let nodes = vec![
        node(&["first"], &[]),
        node(&["  "], &[]),
        node(&[], &[("id", "second")]),
        node(&[], &[]),
        node(&["third"], &[("id", "3")]),
    ];
    let elements = extract_all(&nodes);
    assert_eq!(elements.len(), 3);
    assert_eq!(elements[0].text(), "first");
    assert_eq!(elements[1].text(), "");
    assert_eq!(elements[1].attribute("id"), Some("second"));
    assert_eq!(elements[2].text(), "third");
    assert_eq!(elements[2].attribute("id"), Some("3"));
    assert!(extract_all(&[]).is_empty());
    assert!(extract_all(&[node(&[], &[]), node(&[" "], &[])]).is_empty());
}

#[test]
fn an_element_is_never_empty() {
    assert!(ExtractedElement::new("", &[]).is_none());
    let element = ExtractedElement::new("t", &[]).expect("a record");
    assert_eq!(element.text(), "t");
    assert!(element.attributes().is_empty());
    let element = ExtractedElement::new("", &[pair("a", "b")]).expect("a record");
    assert_eq!(element.attribute("a"), Some("b"));
}

#[test]
fn the_order_of_the_attributes_does_not_change_the_mapping() {
    let one = ExtractedElement::new("t", &[pair("b", "2"), pair("a", "1"), pair("c", "3")])
        .expect("a record");
    let other = ExtractedElement::new("t", &[pair("a", "1"), pair("c", "3"), pair("b", "2")])
        .expect("a record");
    for name in ["a", "b", "c", "d"] {
        assert_eq!(one.attribute(name), other.attribute(name));
    }
    assert_eq!(one.attribute("b"), Some("2"));
    assert_eq!(one.attributes().len(), other.attributes().len());
    let mut sorted = one.attributes().clone();
    sorted.sort();
    let again = ExtractedElement::new(one.text(), &sorted).expect("a record");
    for name in ["a", "b", "c"] {
        assert_eq!(again.attribute(name), one.attribute(name));
    }
}
