use webscraper::extract::ExtractedElement;
use webscraper::report::{render_text, OutputFormat};
use webscraper::session::ScrapeResult;

fn attribute(name: &str, value: &str) -> (String, String) {
    (name.to_string(), value.to_string())
}

fn result_of(elements: Vec<ExtractedElement>) -> ScrapeResult {
    ScrapeResult::new(
        "https://example.com/",
        "a.link",
        elements,
        "2024-05-06T07:08:09+00:00".to_string(),
    )
    .ok()
    .expect("a result")
}

#[test]
fn the_report_shows_head_and_blocks() {
    let elements = vec![
        ExtractedElement::new("Home", &[attribute("href", "/"), attribute("class", "link")])
            .unwrap(),
        ExtractedElement::new("plain", &[]).unwrap(),
        ExtractedElement::new("", &[attribute("id", "x")]).unwrap(),
    ];
    let expected = "=== Web Scraping Results ===\n\
URL: https://example.com/\n\
Selector: a.link\n\
Timestamp: 2024-05-06T07:08:09+00:00\n\
Found 3 element(s):\n\
\n\
--- Element 1 ---\n\
Text: Home\n\
Attributes:\n  href: /\n  class: link\n\
\n\
--- Element 2 ---\n\
Text: plain\n\
\n\
--- Element 3 ---\n\
Attributes:\n  id: x\n\
\n";
    assert_eq!(render_text(&result_of(elements)), expected);
}

#[test]
fn the_report_numbers_in_decimal() {
    let mut elements = Vec::new();
    for i in 0..12 {
        elements.push(ExtractedElement::new(&format!("t{}", i), &[]).unwrap());
    }
    let report = render_text(&result_of(elements));
    assert!(report.contains("Found 12 element(s):\n\n--- Element 1 ---\nText: t0\n\n"));
    assert!(report.contains("--- Element 10 ---\nText: t9\n\n"));
    assert!(report.ends_with("--- Element 12 ---\nText: t11\n\n"));
    assert_eq!(report.matches("--- Element ").count(), 12);
}

#[test]
fn the_format_is_json_only_by_name() {
    assert_eq!(OutputFormat::from_name("json"), OutputFormat::Json);
    assert_eq!(OutputFormat::from_name("JSON"), OutputFormat::Json);
    assert_eq!(OutputFormat::from_name("Json"), OutputFormat::Json);
    assert_eq!(OutputFormat::from_name("text"), OutputFormat::Text);
    assert_eq!(OutputFormat::from_name(""), OutputFormat::Text);
    assert_eq!(OutputFormat::from_name("yaml"), OutputFormat::Text);
    assert_eq!(OutputFormat::from_name(" json"), OutputFormat::Text);
    assert_eq!(OutputFormat::from_folded("json"), OutputFormat::Json);
    assert_eq!(OutputFormat::from_folded("JSON"), OutputFormat::Text);
}
