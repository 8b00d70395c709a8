use webscraper::error::{FetchPhase, ScrapeError};
use webscraper::extract::MatchedNode;
use webscraper::session::{
    conclude, Action, Event, Notice, ScrapeRequest, ScrapeResult, Session, Stage,
    PAGE_TIMEOUT_SECS, POLICY_TIMEOUT_SECS,
};
use webscraper::target::Target;

const PAGE: &str = "<html><body><h1 class=\"t\">Title</h1><p>one</p><p>two</p></body></html>";

fn request(url: &str, selector: &str, respect_policy: bool) -> ScrapeRequest {
    ScrapeRequest {
        url: url.to_string(),
        selector: selector.to_string(),
        agent: "TestBot".to_string(),
        respect_policy,
        delay_ms: 250,
    }
}

fn session(url: &str, selector: &str, respect_policy: bool) -> Session {
    match Session::new(request(url, selector, respect_policy)) {
        Ok(session) => session,
        Err(error) => panic!("refused: {}", error.message()),
    }
}

fn ok(status: u16) -> Event {
    Event::Responded { status, reason: Some("OK".to_string()) }
}

fn expect_fetch(action: &Action, url: &str, timeout: u64) {
    match action {
        Action::Fetch { url: asked, agent, timeout_secs } => {
            assert_eq!(asked, url);
            assert_eq!(agent, "TestBot");
            assert_eq!(*timeout_secs, timeout);
        },
        _ => panic!("no fetch"),
    }
}

fn expect_pause(action: &Action) {
    match action {
        Action::Pause { millis } => assert_eq!(*millis, 250),
        _ => panic!("no pause"),
    }
}

fn failure(action: Action) -> ScrapeError {
    match action {
        Action::Fail(error) => error,
        _ => panic!("no failure"),
    }
}

fn success(action: Action) -> ScrapeResult {
    match action {
        Action::Succeed(result) => result,
        Action::Fail(error) => panic!("failed: {}", error.message()),
        _ => panic!("not finished"),
    }
}

fn to_page_body(session: &mut Session) {
    session.advance(Event::Start);
    session.advance(Event::Paused);
    let step = session.advance(ok(200));
    assert!(matches!(step.action, Action::ReadBody));
    assert_eq!(session.stage(), Stage::AwaitingPageBody);
}

#[test]
fn a_malformed_url_is_refused_at_once() {
    for url in ["not a url", "", "/relative/path", "http://"] {
        match Session::new(request(url, "p", true)) {
            Err(ScrapeError::InvalidUrl { url: named }) => assert_eq!(named, url),
            Err(_) => panic!("another error"),
            Ok(_) => panic!("{:?} was accepted", url),
        }
    }
    let error = Session::new(request("not a url", "p", true)).err().expect("an error");
    assert_eq!(error.message(), "Invalid URL format: not a url");
}

#[test]
fn target_reads_scheme_host_and_path() {
    let target = Target::parse("https://Example.com:8443/a/b?q=1#frag").ok().expect("a target");
    assert_eq!(target.scheme, "https");
    assert_eq!(target.host, "example.com");
    assert_eq!(target.path, "/a/b");
    assert_eq!(target.policy_url(), "https://example.com/robots.txt");
    let target = Target::parse("http://127.0.0.1").ok().expect("a target");
    assert_eq!(target.path, "/");
    assert_eq!(target.policy_url(), "http://127.0.0.1/robots.txt");
    let target = Target::parse("data:text/plain,Stuff").ok().expect("a target");
    assert_eq!(target.host, "");
    assert_eq!(target.policy_url(), "data:///robots.txt");
}

#[test]
fn a_scrape_runs_policy_pause_fetch_extract() {
    let mut session = session("https://example.com/shop/list", "p", true);
    assert_eq!(session.stage(), Stage::Ready);
    assert!(matches!(session.owed(), Action::Nothing));

    let step = session.advance(Event::Start);
    expect_fetch(&step.action, "https://example.com/robots.txt", POLICY_TIMEOUT_SECS);
    assert_eq!(POLICY_TIMEOUT_SECS, 10);
    assert_eq!(step.notice, None);
    assert_eq!(session.stage(), Stage::AwaitingPolicyResponse);

    let step = session.advance(ok(200));
    assert!(matches!(step.action, Action::ReadBody));
    assert_eq!(session.stage(), Stage::AwaitingPolicyBody);

    let step = session.advance(Event::Body("User-agent: *\nDisallow: /private".to_string()));
    expect_pause(&step.action);
    assert_eq!(step.notice, Some(Notice::PolicyPassed));
    assert_eq!(session.stage(), Stage::AwaitingPause);

    let step = session.advance(Event::Paused);
    expect_fetch(&step.action, "https://example.com/shop/list", PAGE_TIMEOUT_SECS);
    assert_eq!(PAGE_TIMEOUT_SECS, 30);
    assert_eq!(session.stage(), Stage::AwaitingPageResponse);

    let step = session.advance(ok(204));
    assert!(matches!(step.action, Action::ReadBody));
    assert_eq!(session.stage(), Stage::AwaitingPageBody);

    let step = session.advance(Event::Body(PAGE.to_string()));
    assert_eq!(session.stage(), Stage::Finished);
    assert_eq!(step.notice, None);
    let result = success(step.action);
    assert_eq!(result.url(), "https://example.com/shop/list");
    assert_eq!(result.selector(), "p");
    let texts: Vec<&str> = result.elements().iter().map(|element| element.text()).collect();
    assert_eq!(texts, vec!["one", "two"]);
    let stamp: Vec<char> = result.timestamp().chars().collect();
    assert!(result.timestamp().ends_with("+00:00"));
    assert!(stamp.len() >= 25);
    assert_eq!(stamp[4], '-');
    assert_eq!(stamp[7], '-');
    assert_eq!(stamp[10], 'T');
    assert_eq!(stamp[13], ':');
    assert_eq!(stamp[16], ':');
    assert!(stamp[..4].iter().all(|c| c.is_ascii_digit()));

    let step = session.advance(Event::Start);
    assert!(matches!(step.action, Action::Nothing));
    assert_eq!(session.stage(), Stage::Finished);
}

#[test]
fn a_forbidden_path_ends_the_scrape_before_the_page_is_fetched() {
    let mut session = session("https://example.com/private/data", "p", true);
    session.advance(Event::Start);
    session.advance(ok(200));
    let step = session.advance(Event::Body("User-agent: *\nDisallow: /private".to_string()));
    assert_eq!(session.stage(), Stage::Finished);
    match failure(step.action) {
        ScrapeError::PolicyViolation { path, prefix } => {
            assert_eq!(path, "/private/data");
            assert_eq!(prefix, "/private");
        },
        _ => panic!("another error"),
    }
    let step = session.advance(Event::Paused);
    assert!(matches!(step.action, Action::Nothing));
}

#[test]
fn a_policy_for_another_agent_does_not_forbid() {
    let mut session = session("https://example.com/x", "p", true);
    session.advance(Event::Start);
    session.advance(ok(200));
    let step = session
        .advance(Event::Body("User-agent: GoodBot\nDisallow: /x\nUser-agent: *\n".to_string()));
    expect_pause(&step.action);
    assert_eq!(step.notice, Some(Notice::PolicyPassed));

    let mut session = session_for_testbot();
    session.advance(Event::Start);
    session.advance(ok(200));
    let step = session.advance(Event::Body("User-agent: testbot\nDisallow: /x".to_string()));
    assert!(matches!(failure(step.action), ScrapeError::PolicyViolation { .. }));
}

fn session_for_testbot() -> Session {
    session("https://example.com/x", "p", true)
}

#[test]
fn policy_fetch_failure_does_not_abort() {
    let mut session = session("https://example.com/page", "p", true);
    session.advance(Event::Start);
    let step = session.advance(Event::Failed("connection refused".to_string()));
    expect_pause(&step.action);
    assert_eq!(step.notice, Some(Notice::PolicyUnreachable));
    assert_eq!(session.stage(), Stage::AwaitingPause);
    let step = session.advance(Event::Paused);
    expect_fetch(&step.action, "https://example.com/page", 30);
    session.advance(ok(200));
    let step = session.advance(Event::Body(PAGE.to_string()));
    assert_eq!(success(step.action).elements().len(), 2);
}

#[test]
fn policy_not_found_does_not_abort() {
    for status in [404u16, 403, 500, 301, 199, 300] {
        let mut session = session("https://example.com/page", "p", true);
        session.advance(Event::Start);
        let step =
            session.advance(Event::Responded { status, reason: Some("Not Found".to_string()) });
        expect_pause(&step.action);
        assert_eq!(step.notice, Some(Notice::PolicyNotFound));
        let step = session.advance(Event::Paused);
        expect_fetch(&step.action, "https://example.com/page", 30);
    }
}

#[test]
fn policy_body_failure_does_not_abort() {
    let mut session = session("https://example.com/page", "p", true);
    session.advance(Event::Start);
    session.advance(ok(200));
    let step = session.advance(Event::Failed("reset".to_string()));
    expect_pause(&step.action);
    assert_eq!(step.notice, Some(Notice::PolicyUnreachable));
    let step = session.advance(Event::Paused);
    expect_fetch(&step.action, "https://example.com/page", 30);
}

#[test]
fn without_policy_the_scrape_starts_with_the_pause() {
    let mut session = session("https://example.com/private", "p", false);
    let step = session.advance(Event::Start);
    expect_pause(&step.action);
    assert_eq!(step.notice, None);
    assert_eq!(session.stage(), Stage::AwaitingPause);
}

#[test]
fn a_status_outside_2xx_is_an_error() {
    for (status, reason) in [(404u16, "Not Found"), (500, "Internal Server Error"), (301, "Moved")]
    {
        let mut session = session("https://example.com/", "p", false);
        session.advance(Event::Start);
        session.advance(Event::Paused);
        let step =
            session.advance(Event::Responded { status, reason: Some(reason.to_string()) });
        assert_eq!(session.stage(), Stage::Finished);
        let error = failure(step.action);
        match &error {
            ScrapeError::HttpStatus { code, reason: named } => {
                assert_eq!(*code, status);
                assert_eq!(named.as_deref(), Some(reason));
            },
            _ => panic!("another error"),
        }
        assert_eq!(error.message(), format!("HTTP error: {} {} - {}", status, reason, reason));
    }
    let error = ScrapeError::HttpStatus { code: 404, reason: Some("Not Found".to_string()) };
    assert_eq!(error.message(), "HTTP error: 404 Not Found - Not Found");
    for status in [200u16, 201, 299] {
        let mut session = session("https://example.com/", "p", false);
        session.advance(Event::Start);
        session.advance(Event::Paused);
        assert!(matches!(session.advance(ok(status)).action, Action::ReadBody));
    }
}

#[test]
fn a_status_without_a_standard_phrase_is_reported_as_unknown() {
    let mut session = session("https://example.com/", "p", false);
    session.advance(Event::Start);
    session.advance(Event::Paused);
    let step = session.advance(Event::Responded { status: 599, reason: None });
    let error = failure(step.action);
    assert!(matches!(&error, ScrapeError::HttpStatus { code: 599, reason: None }));
    assert_eq!(error.message(), "HTTP error: 599 <unknown status code> - Unknown");
}

#[test]
fn a_failed_fetch_is_a_network_error() {
    let mut session = session("https://example.com/", "p", false);
    session.advance(Event::Start);
    session.advance(Event::Paused);
    let step = session.advance(Event::Failed("timed out".to_string()));
    let error = failure(step.action);
    assert!(matches!(
        &error,
        ScrapeError::Network { phase: FetchPhase::Request, detail } if detail == "timed out"
    ));
    assert_eq!(error.message(), "Network error: timed out");

    let mut session = session_for_testbot_without_policy();
    to_page_body(&mut session);
    let step = session.advance(Event::Failed("body cut short".to_string()));
    let error = failure(step.action);
    assert!(matches!(&error, ScrapeError::Network { phase: FetchPhase::Body, .. }));
    assert_eq!(error.message(), "Failed to read response body: body cut short");
    assert_eq!(session.stage(), Stage::Finished);
}

fn session_for_testbot_without_policy() -> Session {
    session("https://example.com/", "p", false)
}

#[test]
fn zero_matches_are_an_error_never_an_empty_result() {
    let mut session = session("https://example.com/", "h6", false);
    to_page_body(&mut session);
    let step = session.advance(Event::Body(PAGE.to_string()));
    let error = failure(step.action);
    match &error {
        ScrapeError::NoMatch { selector, url } => {
            assert_eq!(selector, "h6");
            assert_eq!(url, "https://example.com/");
        },
        _ => panic!("another error"),
    }
    assert_eq!(
        error.message(),
        "No elements found matching selector 'h6' on https://example.com/"
    );
}

#[test]
fn matches_without_text_and_attributes_are_an_error_too() {
    let mut session = session("https://example.com/", "li", false);
    to_page_body(&mut session);
    let step = session.advance(Event::Body("<ul><li></li><li>   </li></ul>".to_string()));
    assert!(matches!(failure(step.action), ScrapeError::NoMatch { .. }));
}

#[test]
fn a_malformed_selector_is_an_error() {
    let mut session = session("https://example.com/", "div[", false);
    to_page_body(&mut session);
    let step = session.advance(Event::Body(PAGE.to_string()));
    let error = failure(step.action);
    assert!(matches!(&error, ScrapeError::SelectorSyntax { selector } if selector == "div["));
    assert_eq!(error.message(), "Invalid CSS selector: div[");
    assert_eq!(session.stage(), Stage::Finished);
}

#[test]
fn an_event_that_is_not_awaited_changes_nothing() {
    let mut session = session("https://example.com/a", "p", true);
    let step = session.advance(Event::Paused);
    assert!(matches!(step.action, Action::Nothing));
    assert_eq!(session.stage(), Stage::Ready);

    session.advance(Event::Start);
    let step = session.advance(Event::Body("User-agent: *\nDisallow: /".to_string()));
    expect_fetch(&step.action, "https://example.com/robots.txt", 10);
    assert_eq!(session.stage(), Stage::AwaitingPolicyResponse);

    session.advance(Event::Failed("x".to_string()));
    let step = session.advance(Event::Start);
    expect_pause(&step.action);
    assert_eq!(step.notice, None);
    assert_eq!(session.stage(), Stage::AwaitingPause);
    expect_pause(&session.owed());

    session.advance(Event::Paused);
    let step = session.advance(Event::Paused);
    expect_fetch(&step.action, "https://example.com/a", 30);
    assert_eq!(session.stage(), Stage::AwaitingPageResponse);
}

#[test]
fn the_session_keeps_its_request_and_target() {
    let mut session = session("https://example.com/a/b", "p", true);
    session.advance(Event::Start);
    session.advance(Event::Failed("x".to_string()));
    assert_eq!(session.request().url, "https://example.com/a/b");
    assert_eq!(session.request().selector, "p");
    assert_eq!(session.request().delay_ms, 250);
    assert_eq!(session.target().path, "/a/b");
}

#[test]
fn conclude_extracts_or_reports_no_match() {
    let nodes = vec![
        MatchedNode { texts: vec![" a ".to_string()], attributes: vec![] },
        MatchedNode { texts: vec![], attributes: vec![] },
    ];
    let result = conclude("u", "s", &nodes, "2024-01-01T00:00:00+00:00".to_string())
        .ok()
        .expect("a result");
    assert_eq!(result.url(), "u");
    assert_eq!(result.selector(), "s");
    assert_eq!(result.timestamp(), "2024-01-01T00:00:00+00:00");
    assert_eq!(result.elements().len(), 1);
    assert_eq!(result.elements()[0].text(), "a");

    let error = conclude("u", "s", &nodes[1..], "t".to_string()).err().expect("an error");
    assert!(matches!(error, ScrapeError::NoMatch { .. }));
    let error = conclude("u", "s", &[], "t".to_string()).err().expect("an error");
    assert_eq!(error.message(), "No elements found matching selector 's' on u");
    assert!(ScrapeResult::new("u", "s", Vec::new(), "t".to_string()).is_err());
}

#[test]
fn policy_violation_message() {
    let error = ScrapeError::PolicyViolation {
        path: "/admin/users".to_string(),
        prefix: "/admin".to_string(),
    };
    assert_eq!(
        error.message(),
        "Access to /admin/users is disallowed by robots.txt (rule: Disallow: /admin)"
    );
}

#[test]
fn a_page_too_large_to_parse_is_an_error() {
    let mut session = session("https://example.com/", "p", false);
    to_page_body(&mut session);
    let step = session.advance(Event::Body("<p>x</p>".repeat(0x0200_0000)));
    assert_eq!(session.stage(), Stage::Finished);
    let error = failure(step.action);
    assert!(matches!(&error, ScrapeError::Network { phase: FetchPhase::Body, .. }));
    assert_eq!(
        error.message(),
        "Failed to read response body: the page is too large to parse"
    );
}

#[test]
fn the_target_is_read_from_the_url_of_the_request() {
    let session = session("https://Example.COM:8443/a/b?q=1", "p", true);
    assert_eq!(session.target().scheme, "https");
    assert_eq!(session.target().host, "example.com");
    assert_eq!(session.target().path, "/a/b");
}
