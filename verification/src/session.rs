//! The decisions that sequence a scrape: policy check, pause, fetch, extract.
//!
//! A [`Session`] performs no request itself. It is told what happened, as an
//! [`Event`], and answers with the next thing to do, as an [`Action`].

use crate::error::{ErrorModel, FetchPhase, ScrapeError};
use crate::extract::{
    element_models, extract_all, extracting, node_models, ElementModel, ExtractedElement,
    MatchedNode, NodeModel,
};
use crate::policy::{evaluate, evaluation};
use crate::selector::{
    compile, match_nodes, matches_of, parse_document, selector_parses, MAX_MARKUP_CHARS,
};
use crate::target::{target_of, url_parses, Target, TargetModel};
use vstd::prelude::*;

verus! {

/// Seconds granted to the fetch of the exclusion document.
pub const POLICY_TIMEOUT_SECS: u64 = 10;

/// Seconds granted to the fetch of the page.
pub const PAGE_TIMEOUT_SECS: u64 = 30;

/// The shape of a time in RFC 3339 notation at offset zero: a date that ends
/// in month and day, the letter `T`, hours, minutes and seconds (with or
/// without a fraction), and the offset `+00:00`.
pub open spec fn is_utc_timestamp(s: Seq<char>) -> bool {
    exists|t: int|
        {
            &&& 10 <= t
            &&& t + 15 <= s.len()
            &&& #[trigger] s[t] == 'T'
            &&& s[t - 6] == '-'
            &&& s[t - 3] == '-'
            &&& s[t + 3] == ':'
            &&& s[t + 6] == ':'
            &&& s.subrange(s.len() - 6, s.len() as int) == "+00:00"@
        }
}

/// The time of the call, in RFC 3339 notation.
///
/// Trusted: `chrono::Utc::now` reads the clock and `DateTime::to_rfc3339`
/// writes the reading out. The result changes from call to call; the
/// contract claims only the shape in which every reading is written: year,
/// month and day with hyphens, `T`, the time of day with colons, and the
/// offset of UTC.
#[verifier::external_body]
fn current_timestamp() -> (stamp: String)
    ensures
        is_utc_timestamp(stamp@),
{
    chrono::Utc::now().to_rfc3339()
}

/// What is asked of a scrape.
pub struct ScrapeRequest {
    /// The page to fetch.
    pub url: String,
    /// The selector whose matches are extracted.
    pub selector: String,
    /// The agent name sent with each request and looked up in the exclusion
    /// document.
    pub agent: String,
    /// Whether the exclusion document is consulted.
    pub respect_policy: bool,
    /// The pause before the page is fetched, in milliseconds.
    pub delay_ms: u64,
}

/// The mathematical content of a [`ScrapeRequest`].
pub struct RequestModel {
    pub url: Seq<char>,
    pub selector: Seq<char>,
    pub agent: Seq<char>,
    pub respect_policy: bool,
    pub delay_ms: u64,
}

impl View for ScrapeRequest {
    type V = RequestModel;

    open spec fn view(&self) -> RequestModel {
        RequestModel {
            url: self.url@,
            selector: self.selector@,
            agent: self.agent@,
            respect_policy: self.respect_policy,
            delay_ms: self.delay_ms,
        }
    }
}

/// What a scrape yields: the records of a page, never none.
pub struct ScrapeResult {
    url: String,
    selector: String,
    elements: Vec<ExtractedElement>,
    timestamp: String,
}

/// The mathematical content of a [`ScrapeResult`].
pub struct ResultModel {
    pub url: Seq<char>,
    pub selector: Seq<char>,
    pub elements: Seq<ElementModel>,
    pub timestamp: Seq<char>,
}

impl View for ScrapeResult {
    type V = ResultModel;

    closed spec fn view(&self) -> ResultModel {
        ResultModel {
            url: self.url@,
            selector: self.selector@,
            elements: element_models(self.elements@),
            timestamp: self.timestamp@,
        }
    }
}

impl ScrapeResult {
    /// A result holds at least one record.
    #[verifier::type_invariant]
    spec fn well_formed(self) -> bool {
        self.elements@.len() > 0
    }

    /// The result that holds `elements`; with no element there is no result
    /// but the error that names the selector and the page.
    pub fn new(url: &str, selector: &str, elements: Vec<ExtractedElement>, timestamp: String) -> (r:
        Result<ScrapeResult, ScrapeError>)
        ensures
            r is Ok <==> elements@.len() > 0,
            r matches Ok(result) ==> result@ == (ResultModel {
                url: url@,
                selector: selector@,
                elements: element_models(elements@),
                timestamp: timestamp@,
            }),
            r matches Err(error) ==> error@ == (ErrorModel::NoMatch {
                selector: selector@,
                url: url@,
            }),
    {
        if elements.len() == 0 {
            Err(ScrapeError::NoMatch { selector: selector.to_owned(), url: url.to_owned() })
        } else {
            Ok(
                ScrapeResult {
                    url: url.to_owned(),
                    selector: selector.to_owned(),
                    elements,
                    timestamp,
                },
            )
        }
    }

    /// The page that was fetched.
    pub fn url(&self) -> (url: &str)
        ensures
            url@ == self@.url,
    {
        self.url.as_str()
    }

    /// The selector that was applied.
    pub fn selector(&self) -> (selector: &str)
        ensures
            selector@ == self@.selector,
    {
        self.selector.as_str()
    }

    /// The records as they are kept.
    pub closed spec fn records(&self) -> Seq<ExtractedElement> {
        self.elements@
    }

    /// The records, in the order of the nodes they come from; at least one.
    pub fn elements(&self) -> (elements: &Vec<ExtractedElement>)
        ensures
            elements@ == self.records(),
            element_models(elements@) == self@.elements,
            elements@.len() > 0,
    {
        proof {
            use_type_invariant(self);
        }
        &self.elements
    }

    /// When the result was made.
    pub fn timestamp(&self) -> (timestamp: &str)
        ensures
            timestamp@ == self@.timestamp,
    {
        self.timestamp.as_str()
    }
}

/// What the matched nodes of a page come to: the records of the nodes that
/// have one, in order, or the error that names the selector and the page when
/// no node has one.
pub open spec fn conclusion(
    url: Seq<char>,
    selector: Seq<char>,
    nodes: Seq<NodeModel>,
    timestamp: Seq<char>,
) -> Result<ResultModel, ErrorModel> {
    let elements = nodes.filter_map(extracting());
    if elements.len() == 0 {
        Err(ErrorModel::NoMatch { selector, url })
    } else {
        Ok(ResultModel { url, selector, elements, timestamp })
    }
}

/// Extracts the records of `nodes` and makes the result of the scrape. A page
/// without any record is an error, never an empty result.
pub fn conclude(url: &str, selector: &str, nodes: &[MatchedNode], timestamp: String) -> (r: Result<
    ScrapeResult,
    ScrapeError,
>)
    ensures
        match r {
            Ok(result) => conclusion(url@, selector@, node_models(nodes@), timestamp@) == Ok::<
                ResultModel,
                ErrorModel,
            >(result@),
            Err(error) => conclusion(url@, selector@, node_models(nodes@), timestamp@) == Err::<
                ResultModel,
                ErrorModel,
            >(error@),
        },
{
    let elements = extract_all(nodes);
    ScrapeResult::new(url, selector, elements, timestamp)
}

/// Where a scrape stands.
#[derive(Clone, Copy, Debug, PartialEq, Eq, Structural)]
pub enum Stage {
    /// Nothing has been asked for yet.
    Ready,
    /// The exclusion document was requested; its status is awaited.
    AwaitingPolicyResponse,
    /// The exclusion document was found; its text is awaited.
    AwaitingPolicyBody,
    /// The pause before the page is fetched is running.
    AwaitingPause,
    /// The page was requested; its status is awaited.
    AwaitingPageResponse,
    /// The page was found; its markup is awaited.
    AwaitingPageBody,
    /// The scrape has ended, in a result or in an error.
    Finished,
}

/// What happened outside since the last action.
pub enum Event {
    /// The scrape is to begin.
    Start,
    /// The server answered the request with this status, whose standard
    /// phrase, where it has one, is `reason`.
    Responded { status: u16, reason: Option<String> },
    /// The body of the answer was read.
    Body(String),
    /// The request, or the reading of its answer, failed.
    Failed(String),
    /// The pause is over.
    Paused,
}

/// The mathematical content of an [`Event`].
pub enum EventModel {
    Start,
    Responded { status: u16, reason: Option<Seq<char>> },
    Body(Seq<char>),
    Failed(Seq<char>),
    Paused,
}

impl View for Event {
    type V = EventModel;

    open spec fn view(&self) -> EventModel {
        match self {
            Event::Start => EventModel::Start,
            Event::Responded { status, reason } => EventModel::Responded {
                status: *status,
                reason: match reason {
                    Some(phrase) => Some(phrase@),
                    None => None,
                },
            },
            Event::Body(text) => EventModel::Body(text@),
            Event::Failed(detail) => EventModel::Failed(detail@),
            Event::Paused => EventModel::Paused,
        }
    }
}

/// What is to be done next.
pub enum Action {
    /// Request `url`, naming `agent`, and give up after `timeout_secs`.
    Fetch { url: String, agent: String, timeout_secs: u64 },
    /// Read the body of the answer just received.
    ReadBody,
    /// Wait for `millis` milliseconds.
    Pause { millis: u64 },
    /// Hand out the result: the scrape has succeeded.
    Succeed(ScrapeResult),
    /// Report the error: the scrape has failed.
    Fail(ScrapeError),
    /// Nothing: the scrape has not begun, or it has ended.
    Nothing,
}

/// The mathematical content of an [`Action`].
pub enum ActionModel {
    Fetch { url: Seq<char>, agent: Seq<char>, timeout_secs: u64 },
    ReadBody,
    Pause { millis: u64 },
    Succeed(ResultModel),
    Fail(ErrorModel),
    Nothing,
}

impl View for Action {
    type V = ActionModel;

    open spec fn view(&self) -> ActionModel {
        match self {
            Action::Fetch { url, agent, timeout_secs } => ActionModel::Fetch {
                url: url@,
                agent: agent@,
                timeout_secs: *timeout_secs,
            },
            Action::ReadBody => ActionModel::ReadBody,
            Action::Pause { millis } => ActionModel::Pause { millis: *millis },
            Action::Succeed(result) => ActionModel::Succeed(result@),
            Action::Fail(error) => ActionModel::Fail(error@),
            Action::Nothing => ActionModel::Nothing,
        }
    }
}

/// What a step has to say beside its action. None of these ends the scrape.
#[derive(Clone, Copy, Debug, PartialEq, Eq, Structural)]
pub enum Notice {
    /// The exclusion document allows the page.
    PolicyPassed,
    /// The server has no exclusion document to give; no restriction applies.
    PolicyNotFound,
    /// The exclusion document could not be fetched or read; no restriction
    /// applies.
    PolicyUnreachable,
}

/// One step of a scrape: what to do next, and what to tell the user.
pub struct Step {
    pub action: Action,
    pub notice: Option<Notice>,
}

/// The mathematical content of a [`Step`].
pub struct StepModel {
    pub action: ActionModel,
    pub notice: Option<Notice>,
}

impl View for Step {
    type V = StepModel;

    open spec fn view(&self) -> StepModel {
        StepModel { action: self.action@, notice: self.notice }
    }
}

/// A scrape in progress.
pub struct Session {
    request: ScrapeRequest,
    target: Target,
    stage: Stage,
}

/// The mathematical content of a [`Session`].
pub struct SessionModel {
    pub request: RequestModel,
    pub target: TargetModel,
    pub stage: Stage,
}

impl View for Session {
    type V = SessionModel;

    closed spec fn view(&self) -> SessionModel {
        SessionModel { request: self.request@, target: self.target@, stage: self.stage }
    }
}

/// What is said of a page that is too long to be parsed.
pub open spec fn too_large() -> Seq<char> {
    "the page is too large to parse"@
}

/// Whether a status tells of success: 200 to 299.
pub open spec fn is_success(status: u16) -> bool {
    200 <= status <= 299
}

impl SessionModel {
    /// The request for the exclusion document.
    pub open spec fn policy_fetch(self) -> ActionModel {
        ActionModel::Fetch {
            url: self.target.policy_url(),
            agent: self.request.agent,
            timeout_secs: POLICY_TIMEOUT_SECS,
        }
    }

    /// The request for the page.
    pub open spec fn page_fetch(self) -> ActionModel {
        ActionModel::Fetch {
            url: self.request.url,
            agent: self.request.agent,
            timeout_secs: PAGE_TIMEOUT_SECS,
        }
    }

    /// The pause before the page is fetched.
    pub open spec fn pause(self) -> ActionModel {
        ActionModel::Pause { millis: self.request.delay_ms }
    }

    /// The action that is owed at the session's stage: the one whose outcome
    /// the session waits for.
    pub open spec fn owed(self) -> ActionModel {
        match self.stage {
            Stage::Ready => ActionModel::Nothing,
            Stage::AwaitingPolicyResponse => self.policy_fetch(),
            Stage::AwaitingPolicyBody => ActionModel::ReadBody,
            Stage::AwaitingPause => self.pause(),
            Stage::AwaitingPageResponse => self.page_fetch(),
            Stage::AwaitingPageBody => ActionModel::ReadBody,
            Stage::Finished => ActionModel::Nothing,
        }
    }

    /// The step that goes on to the pause, with what is to be said of the
    /// policy check.
    pub open spec fn to_pause(self, notice: Option<Notice>) -> (Stage, StepModel) {
        (Stage::AwaitingPause, StepModel { action: self.pause(), notice })
    }

    /// The step that ends the scrape in `error`.
    pub open spec fn to_failure(self, error: ErrorModel) -> (Stage, StepModel) {
        (Stage::Finished, StepModel { action: ActionModel::Fail(error), notice: None })
    }

    /// The step that leaves the session where it is and names the owed
    /// action again.
    pub open spec fn to_same(self) -> (Stage, StepModel) {
        (self.stage, StepModel { action: self.owed(), notice: None })
    }

    /// What the exclusion document `document` means for the scrape: a
    /// forbidden path ends it, an allowed one goes on to the pause.
    pub open spec fn after_policy(self, document: Seq<char>) -> (Stage, StepModel) {
        match evaluation(document, self.request.agent, self.target.path).matched_rule {
            Some(rule) => self.to_failure(
                ErrorModel::PolicyViolation {
                    path: self.target.path,
                    prefix: rule.disallowed_path_prefix,
                },
            ),
            None => self.to_pause(Some(Notice::PolicyPassed)),
        }
    }

    /// The stage and the step that follow `event`, wherever the session and
    /// the event alone settle them. They do not settle the last step, the
    /// extraction from the markup of a page, when the selector is well
    /// formed and the markup can be parsed: the result of that step holds
    /// the time at which it was made.
    ///
    /// An event that the stage does not wait for changes nothing.
    pub open spec fn planned(self, event: EventModel) -> Option<(Stage, StepModel)> {
        match (self.stage, event) {
            (Stage::Ready, EventModel::Start) => if self.request.respect_policy {
                Some(
                    (
                        Stage::AwaitingPolicyResponse,
                        StepModel { action: self.policy_fetch(), notice: None },
                    ),
                )
            } else {
                Some(self.to_pause(None))
            },
            (Stage::AwaitingPolicyResponse, EventModel::Responded { status, reason }) => if is_success(
                status,
            ) {
                Some(
                    (
                        Stage::AwaitingPolicyBody,
                        StepModel { action: ActionModel::ReadBody, notice: None },
                    ),
                )
            } else {
                Some(self.to_pause(Some(Notice::PolicyNotFound)))
            },
            (Stage::AwaitingPolicyResponse, EventModel::Failed(_)) => Some(
                self.to_pause(Some(Notice::PolicyUnreachable)),
            ),
            (Stage::AwaitingPolicyBody, EventModel::Body(document)) => Some(
                self.after_policy(document),
            ),
            (Stage::AwaitingPolicyBody, EventModel::Failed(_)) => Some(
                self.to_pause(Some(Notice::PolicyUnreachable)),
            ),
            (Stage::AwaitingPause, EventModel::Paused) => Some(
                (
                    Stage::AwaitingPageResponse,
                    StepModel { action: self.page_fetch(), notice: None },
                ),
            ),
            (Stage::AwaitingPageResponse, EventModel::Responded { status, reason }) => if is_success(
                status,
            ) {
                Some(
                    (
                        Stage::AwaitingPageBody,
                        StepModel { action: ActionModel::ReadBody, notice: None },
                    ),
                )
            } else {
                Some(self.to_failure(ErrorModel::HttpStatus { code: status, reason }))
            },
            (Stage::AwaitingPageResponse, EventModel::Failed(detail)) => Some(
                self.to_failure(ErrorModel::Network { phase: FetchPhase::Request, detail }),
            ),
            (Stage::AwaitingPageBody, EventModel::Failed(detail)) => Some(
                self.to_failure(ErrorModel::Network { phase: FetchPhase::Body, detail }),
            ),
            (Stage::AwaitingPageBody, EventModel::Body(markup)) => if !selector_parses(
                self.request.selector,
            ) {
                Some(
                    self.to_failure(
                        ErrorModel::SelectorSyntax { selector: self.request.selector },
                    ),
                )
            } else if markup.len() > MAX_MARKUP_CHARS {
                Some(
                    self.to_failure(
                        ErrorModel::Network { phase: FetchPhase::Body, detail: too_large() },
                    ),
                )
            } else {
                None
            },
            _ => Some(self.to_same()),
        }
    }

    /// What the last step comes to on the markup of the page: the conclusion
    /// of the nodes that the selector matches in it, stamped with some time
    /// in RFC 3339 notation.
    pub open spec fn concludes(self, markup: Seq<char>, action: ActionModel) -> bool {
        exists|timestamp: Seq<char>|
            is_utc_timestamp(timestamp) && match #[trigger] conclusion(
                self.request.url,
                self.request.selector,
                matches_of(markup, self.request.selector),
                timestamp,
            ) {
                Ok(result) => action == ActionModel::Succeed(result),
                Err(error) => action == ActionModel::Fail(error),
            }
    }
}

impl Session {
    /// The target is the one that the URL of the request stands for.
    #[verifier::type_invariant]
    spec fn well_formed(self) -> bool {
        target_of(self.request.url@) == Some(self.target@)
    }

    /// Begins a scrape. A request whose URL is no absolute URL is refused,
    /// and no other.
    pub fn new(request: ScrapeRequest) -> (r: Result<Session, ScrapeError>)
        ensures
            r is Ok <==> url_parses(request.url@),
            r matches Ok(session) ==> {
                &&& session@.request == request@
                &&& session@.stage == Stage::Ready
                &&& target_of(request.url@) == Some(session@.target)
            },
            r matches Err(error) ==> error@ == (ErrorModel::InvalidUrl { url: request.url@ }),
    {
        match Target::parse(request.url.as_str()) {
            Ok(target) => Ok(Session { request, target, stage: Stage::Ready }),
            Err(error) => Err(error),
        }
    }

    /// Where the scrape stands.
    pub fn stage(&self) -> (stage: Stage)
        ensures
            stage == self@.stage,
    {
        self.stage
    }

    /// What is asked of the scrape.
    pub fn request(&self) -> (request: &ScrapeRequest)
        ensures
            request@ == self@.request,
    {
        &self.request
    }

    /// What the scrape reads of its target URL: the target that the URL of
    /// the request stands for.
    pub fn target(&self) -> (target: &Target)
        ensures
            target@ == self@.target,
            target_of(self@.request.url) == Some(target@),
    {
        proof {
            use_type_invariant(&*self);
        }
        &self.target
    }

    /// The request for the exclusion document.
    fn policy_fetch(&self) -> (action: Action)
        ensures
            action@ == self@.policy_fetch(),
    {
        Action::Fetch {
            url: self.target.policy_url(),
            agent: self.request.agent.clone(),
            timeout_secs: POLICY_TIMEOUT_SECS,
        }
    }

    /// The request for the page.
    fn page_fetch(&self) -> (action: Action)
        ensures
            action@ == self@.page_fetch(),
    {
        Action::Fetch {
            url: self.request.url.clone(),
            agent: self.request.agent.clone(),
            timeout_secs: PAGE_TIMEOUT_SECS,
        }
    }

    /// The action that is owed at the session's stage.
    pub fn owed(&self) -> (action: Action)
        ensures
            action@ == self@.owed(),
    {
        match self.stage {
            Stage::Ready => Action::Nothing,
            Stage::AwaitingPolicyResponse => self.policy_fetch(),
            Stage::AwaitingPolicyBody => Action::ReadBody,
            Stage::AwaitingPause => Action::Pause { millis: self.request.delay_ms },
            Stage::AwaitingPageResponse => self.page_fetch(),
            Stage::AwaitingPageBody => Action::ReadBody,
            Stage::Finished => Action::Nothing,
        }
    }

    /// Goes on to the pause.
    fn go_pause(&mut self, notice: Option<Notice>) -> (step: Step)
        ensures
            final(self)@.request == old(self)@.request,
            final(self)@.target == old(self)@.target,
            (final(self)@.stage, step@) == old(self)@.to_pause(notice),
    {
        proof {
            use_type_invariant(&*self);
        }
        self.stage = Stage::AwaitingPause;
        Step { action: Action::Pause { millis: self.request.delay_ms }, notice }
    }

    /// Ends the scrape in `error`.
    fn go_fail(&mut self, error: ScrapeError) -> (step: Step)
        ensures
            final(self)@.request == old(self)@.request,
            final(self)@.target == old(self)@.target,
            (final(self)@.stage, step@) == old(self)@.to_failure(error@),
    {
        proof {
            use_type_invariant(&*self);
        }
        self.stage = Stage::Finished;
        Step { action: Action::Fail(error), notice: None }
    }

    /// Takes in the exclusion document and decides whether the scrape goes
    /// on.
    fn check_policy(&mut self, document: &str) -> (step: Step)
        ensures
            final(self)@.request == old(self)@.request,
            final(self)@.target == old(self)@.target,
            (final(self)@.stage, step@) == old(self)@.after_policy(document@),
    {
        let decision = evaluate(document, self.request.agent.as_str(), self.target.path.as_str());
        match decision.matched_rule() {
            Some(rule) => {
                let error = ScrapeError::PolicyViolation {
                    path: self.target.path.clone(),
                    prefix: rule.disallowed_path_prefix().to_owned(),
                };
                self.go_fail(error)
            },
            None => self.go_pause(Some(Notice::PolicyPassed)),
        }
    }

    /// Takes in the markup of the page and ends the scrape: in the records
    /// of the nodes that the selector matches, or in an error when the
    /// selector is malformed, the markup is too long to parse, or no node
    /// gives a record.
    fn finish(&mut self, markup: &str) -> (step: Step)
        requires
            old(self)@.stage == Stage::AwaitingPageBody,
        ensures
            final(self)@.request == old(self)@.request,
            final(self)@.target == old(self)@.target,
            old(self)@.planned(EventModel::Body(markup@)) matches Some(next) ==> (
                final(self)@.stage,
                step@,
            ) == next,
            old(self)@.planned(EventModel::Body(markup@)) is None ==> {
                &&& final(self)@.stage == Stage::Finished
                &&& step@.notice is None
                &&& old(self)@.concludes(markup@, step@.action)
            },
    {
        let expression = match compile(self.request.selector.as_str()) {
            Ok(expression) => expression,
            Err(error) => {
                return self.go_fail(error);
            },
        };
        let document = match parse_document(markup) {
            Some(document) => document,
            None => {
                let detail = "the page is too large to parse".to_owned();
                return self.go_fail(ScrapeError::Network { phase: FetchPhase::Body, detail });
            },
        };
        proof {
            use_type_invariant(&*self);
        }
        self.stage = Stage::Finished;
        let nodes = match_nodes(&document, &expression);
        let timestamp = current_timestamp();
        let ghost stamp = timestamp@;
        let outcome = conclude(
            self.request.url.as_str(),
            self.request.selector.as_str(),
            nodes.as_slice(),
            timestamp,
        );
        let ghost found = conclusion(
            self.request.url@,
            self.request.selector@,
            matches_of(markup@, self.request.selector@),
            stamp,
        );
        let action = match outcome {
            Ok(result) => Action::Succeed(result),
            Err(error) => Action::Fail(error),
        };
        proof {
            assert(match found {
                Ok(result) => action@ == ActionModel::Succeed(result),
                Err(error) => action@ == ActionModel::Fail(error),
            });
        }
        Step { action, notice: None }
    }

    /// Takes in what happened and says what to do next.
    ///
    /// The request and the target never change. Stage and step are those of
    /// [`SessionModel::planned`] wherever it settles them; the one step it
    /// leaves open takes in the markup of the page and ends the scrape in the
    /// conclusion of the nodes that the selector matches in it.
    pub fn advance(&mut self, event: Event) -> (step: Step)
        ensures
            final(self)@.request == old(self)@.request,
            final(self)@.target == old(self)@.target,
            old(self)@.planned(event@) matches Some(next) ==> (final(self)@.stage, step@) == next,
            old(self)@.planned(event@) is None ==> {
                &&& final(self)@.stage == Stage::Finished
                &&& step@.notice is None
                &&& event@ matches EventModel::Body(markup)
                &&& old(self)@.concludes(markup, step@.action)
            },
    {
        proof {
            use_type_invariant(&*self);
        }
        match self.stage {
            Stage::Ready => match event {
                Event::Start => {
                    if self.request.respect_policy {
                        self.stage = Stage::AwaitingPolicyResponse;
                        Step { action: self.policy_fetch(), notice: None }
                    } else {
                        self.go_pause(None)
                    }
                },
                _ => Step { action: self.owed(), notice: None },
            },
            Stage::AwaitingPolicyResponse => match event {
                Event::Responded { status, reason } => {
                    if 200 <= status && status <= 299 {
                        self.stage = Stage::AwaitingPolicyBody;
                        Step { action: Action::ReadBody, notice: None }
                    } else {
                        self.go_pause(Some(Notice::PolicyNotFound))
                    }
                },
                Event::Failed(_) => self.go_pause(Some(Notice::PolicyUnreachable)),
                _ => Step { action: self.owed(), notice: None },
            },
            Stage::AwaitingPolicyBody => match event {
                Event::Body(document) => self.check_policy(document.as_str()),
                Event::Failed(_) => self.go_pause(Some(Notice::PolicyUnreachable)),
                _ => Step { action: self.owed(), notice: None },
            },
            Stage::AwaitingPause => match event {
                Event::Paused => {
                    self.stage = Stage::AwaitingPageResponse;
                    Step { action: self.page_fetch(), notice: None }
                },
                _ => Step { action: self.owed(), notice: None },
            },
            Stage::AwaitingPageResponse => match event {
                Event::Responded { status, reason } => {
                    if 200 <= status && status <= 299 {
                        self.stage = Stage::AwaitingPageBody;
                        Step { action: Action::ReadBody, notice: None }
                    } else {
                        self.go_fail(ScrapeError::HttpStatus { code: status, reason })
                    }
                },
                Event::Failed(detail) => self.go_fail(
                    ScrapeError::Network { phase: FetchPhase::Request, detail },
                ),
                _ => Step { action: self.owed(), notice: None },
            },
            Stage::AwaitingPageBody => match event {
                Event::Body(markup) => self.finish(markup.as_str()),
                Event::Failed(detail) => self.go_fail(
                    ScrapeError::Network { phase: FetchPhase::Body, detail },
                ),
                _ => Step { action: self.owed(), notice: None },
            },
            Stage::Finished => Step { action: self.owed(), notice: None },
        }
    }
}

/// A scrape never succeeds with nothing: whatever the nodes and the time,
/// the conclusion is a result with at least one record, or, exactly when no
/// node gives a record, the error that names the selector and the page.
pub proof fn lemma_no_empty_success(
    url: Seq<char>,
    selector: Seq<char>,
    nodes: Seq<NodeModel>,
    timestamp: Seq<char>,
)
    ensures
        match conclusion(url, selector, nodes, timestamp) {
            Ok(result) => result.elements.len() > 0 && result.elements == nodes.filter_map(
                extracting(),
            ),
            Err(error) => error == (ErrorModel::NoMatch { selector, url }) && nodes.filter_map(
                extracting(),
            ).len() == 0,
        },
{
}

/// The last step of a scrape ends it in a result with at least one record
/// or in the error that tells of no match, and which of the two is settled
/// by the page and the selector alone: the scrape succeeds exactly when some
/// node that the selector matches in the markup gives a record, and its
/// records are then the records of those nodes, in order.
pub proof fn lemma_concludes(session: SessionModel, markup: Seq<char>, action: ActionModel)
    requires
        session.concludes(markup, action),
    ensures
        action is Succeed <==> matches_of(markup, session.request.selector).filter_map(
            extracting(),
        ).len() > 0,
        match action {
            ActionModel::Succeed(result) => {
                &&& result.elements.len() > 0
                &&& result.elements == matches_of(markup, session.request.selector).filter_map(
                    extracting(),
                )
                &&& result.url == session.request.url
                &&& result.selector == session.request.selector
                &&& is_utc_timestamp(result.timestamp)
            },
            ActionModel::Fail(error) => error == (ErrorModel::NoMatch {
                selector: session.request.selector,
                url: session.request.url,
            }),
            _ => false,
        },
{
    let timestamp = choose|timestamp: Seq<char>|
        is_utc_timestamp(timestamp) && match #[trigger] conclusion(
            session.request.url,
            session.request.selector,
            matches_of(markup, session.request.selector),
            timestamp,
        ) {
            Ok(result) => action == ActionModel::Succeed(result),
            Err(error) => action == ActionModel::Fail(error),
        };
    lemma_no_empty_success(
        session.request.url,
        session.request.selector,
        matches_of(markup, session.request.selector),
        timestamp,
    );
}

/// Whether an event tells that the exclusion document could not be had: the
/// request or the reading failed, or the server answered without success.
pub open spec fn policy_unavailable(event: EventModel) -> bool {
    match event {
        EventModel::Failed(_) => true,
        EventModel::Responded { status, reason } => !is_success(status),
        _ => false,
    }
}

/// Failing to get the exclusion document never ends a scrape: the session
/// goes on to the pause, and from the pause to the request for the page that
/// was asked for.
pub proof fn lemma_policy_failure_goes_on(session: SessionModel, event: EventModel)
    requires
        session.stage == Stage::AwaitingPolicyResponse || (session.stage
            == Stage::AwaitingPolicyBody && event is Failed),
        policy_unavailable(event),
    ensures
        session.planned(event) matches Some((stage, step)) && {
            &&& stage == Stage::AwaitingPause
            &&& step.action == session.pause()
            &&& step.notice is Some
            &&& step.notice != Some(Notice::PolicyPassed)
            &&& (SessionModel { stage, ..session }).planned(EventModel::Paused) == Some(
                (
                    Stage::AwaitingPageResponse,
                    StepModel { action: session.page_fetch(), notice: None },
                ),
            )
        },
{
}

/// Before the page is requested nothing ends a scrape but a forbidding
/// exclusion document: every step from a stage before the page request is
/// settled by the session and the event alone, it never succeeds, and where
/// it fails it fails with a policy violation on reading the exclusion
/// document.
pub proof fn lemma_only_policy_stops_early(session: SessionModel, event: EventModel)
    requires
        session.stage == Stage::Ready || session.stage == Stage::AwaitingPolicyResponse
            || session.stage == Stage::AwaitingPolicyBody || session.stage
            == Stage::AwaitingPause,
    ensures
        session.planned(event) matches Some((stage, step)) && (step.action matches ActionModel::Fail(
            error,
        ) ==> error is PolicyViolation && session.stage == Stage::AwaitingPolicyBody),
        session.planned(event) matches Some((stage, step)) && !(step.action is Succeed),
{
}

} // verus!
