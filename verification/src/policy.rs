//! Crawl-exclusion policy: reading an exclusion document into rules and
//! deciding whether an agent may fetch a path.

use crate::text::{
    after_first, chars_of, fields, fields_from, find_char, lowercase, rest_after,
    same_text, starts_with, string_of, to_lowercase, trim, trimmed,
};
use vstd::prelude::*;
use vstd::slice::slice_subrange;

verus! {

/// Which agents a block of the exclusion document is addressed to.
pub enum AgentMatcher {
    /// Every agent (`*`).
    Wildcard,
    /// The agent of this name, compared without regard to case.
    Literal(String),
}

/// The mathematical content of an [`AgentMatcher`].
pub enum AgentModel {
    Wildcard,
    Literal(Seq<char>),
}

impl AgentModel {
    /// Whether a block addressed this way covers the agent named `agent`.
    pub open spec fn covers(self, agent: Seq<char>) -> bool {
        match self {
            AgentModel::Wildcard => true,
            AgentModel::Literal(name) => lowercase(name) == lowercase(agent),
        }
    }
}

/// The matcher that a `User-agent` value stands for.
pub open spec fn matcher_of(value: Seq<char>) -> AgentModel {
    if value == seq!['*'] {
        AgentModel::Wildcard
    } else {
        AgentModel::Literal(value)
    }
}

impl View for AgentMatcher {
    type V = AgentModel;

    open spec fn view(&self) -> AgentModel {
        match self {
            AgentMatcher::Wildcard => AgentModel::Wildcard,
            AgentMatcher::Literal(name) => AgentModel::Literal(name@),
        }
    }
}

impl AgentMatcher {
    /// The matcher for the value of a `User-agent` line: the wildcard for
    /// `*`, the literal name otherwise.
    pub fn from_value(value: &str) -> (m: AgentMatcher)
        ensures
            m@ == matcher_of(value@),
    {
        let chars = chars_of(value);
        if chars.len() == 1 && chars[0] == '*' {
            assert(value@ =~= seq!['*']);
            AgentMatcher::Wildcard
        } else {
            assert(value@ != seq!['*']) by {
                if value@ == seq!['*'] {
                    assert(seq!['*'].len() == 1);
                    assert(seq!['*'][0] == '*');
                }
            }
            AgentMatcher::Literal(string_of(chars.as_slice()))
        }
    }

    /// A copy of this matcher.
    pub fn duplicate(&self) -> (m: AgentMatcher)
        ensures
            m@ == self@,
    {
        match self {
            AgentMatcher::Wildcard => AgentMatcher::Wildcard,
            AgentMatcher::Literal(name) => AgentMatcher::Literal(name.clone()),
        }
    }

    /// Whether this matcher covers an agent, given the lower-case forms of
    /// the matcher's own name and of the agent's name. The wildcard covers
    /// every agent; a literal covers the agents whose lower-case name is its
    /// own.
    pub fn covers_folded(&self, folded_name: &str, folded_agent: &str) -> (r: bool)
        ensures
            r == (self@ is Wildcard || folded_name@ == folded_agent@),
    {
        match self {
            AgentMatcher::Wildcard => true,
            AgentMatcher::Literal(_) => same_text(folded_name, folded_agent),
        }
    }

    /// Whether this matcher covers the agent named `agent`.
    pub fn covers(&self, agent: &str) -> (r: bool)
        ensures
            r == self@.covers(agent@),
    {
        match self {
            AgentMatcher::Wildcard => true,
            AgentMatcher::Literal(name) => {
                let folded_name = to_lowercase(name.as_str());
                let folded_agent = to_lowercase(agent);
                self.covers_folded(folded_name.as_str(), folded_agent.as_str())
            },
        }
    }
}

/// One disallowed path prefix, with the agents it is addressed to.
pub struct ExclusionRule {
    applies_to: AgentMatcher,
    disallowed_path_prefix: String,
}

/// The mathematical content of an [`ExclusionRule`].
pub struct RuleModel {
    pub applies_to: AgentModel,
    pub disallowed_path_prefix: Seq<char>,
}

impl RuleModel {
    /// Whether this rule forbids `path`: the path begins with the rule's
    /// prefix.
    pub open spec fn blocks(self, path: Seq<char>) -> bool {
        self.disallowed_path_prefix.is_prefix_of(path)
    }
}

impl View for ExclusionRule {
    type V = RuleModel;

    closed spec fn view(&self) -> RuleModel {
        RuleModel {
            applies_to: self.applies_to@,
            disallowed_path_prefix: self.disallowed_path_prefix@,
        }
    }
}

impl ExclusionRule {
    /// A rule never holds an empty prefix.
    #[verifier::type_invariant]
    spec fn well_formed(self) -> bool {
        self.disallowed_path_prefix@.len() > 0
    }

    /// The rule that forbids the paths beginning with `prefix` to the agents
    /// that `applies_to` covers; none for an empty prefix.
    pub fn new(applies_to: AgentMatcher, prefix: String) -> (r: Option<ExclusionRule>)
        ensures
            r is Some <==> prefix@.len() > 0,
            r matches Some(rule) ==> rule@ == (RuleModel {
                applies_to: applies_to@,
                disallowed_path_prefix: prefix@,
            }),
    {
        if prefix.as_str().is_empty() {
            None
        } else {
            Some(ExclusionRule { applies_to, disallowed_path_prefix: prefix })
        }
    }

    /// The agents this rule is addressed to.
    pub fn applies_to(&self) -> (m: &AgentMatcher)
        ensures
            m@ == self@.applies_to,
    {
        &self.applies_to
    }

    /// The path prefix this rule forbids; never empty.
    pub fn disallowed_path_prefix(&self) -> (prefix: &str)
        ensures
            prefix@ == self@.disallowed_path_prefix,
            prefix@.len() > 0,
    {
        proof {
            use_type_invariant(self);
        }
        self.disallowed_path_prefix.as_str()
    }

    /// A copy of this rule.
    pub fn duplicate(&self) -> (r: ExclusionRule)
        ensures
            r@ == self@,
    {
        proof {
            use_type_invariant(self);
        }
        ExclusionRule {
            applies_to: self.applies_to.duplicate(),
            disallowed_path_prefix: self.disallowed_path_prefix.clone(),
        }
    }

    /// Whether this rule forbids `path`, given as its characters.
    pub fn blocks(&self, path: &[char]) -> (r: bool)
        ensures
            r == self@.blocks(path@),
    {
        let prefix = chars_of(self.disallowed_path_prefix.as_str());
        starts_with(path, prefix.as_slice())
    }
}

/// The models of a sequence of rules, in order.
pub open spec fn rule_models(rules: Seq<ExclusionRule>) -> Seq<RuleModel> {
    rules.map_values(|rule: ExclusionRule| rule@)
}

/// What one line of an exclusion document says.
pub enum Directive {
    /// A `User-agent:` line, with its value.
    UserAgent(String),
    /// A `Disallow:` line, with its value.
    Disallow(String),
    /// Any other line: a comment, a blank line, a directive not known here.
    Other,
}

/// The mathematical content of a [`Directive`].
pub enum DirectiveModel {
    UserAgent(Seq<char>),
    Disallow(Seq<char>),
    Other,
}

impl View for Directive {
    type V = DirectiveModel;

    open spec fn view(&self) -> DirectiveModel {
        match self {
            Directive::UserAgent(value) => DirectiveModel::UserAgent(value@),
            Directive::Disallow(value) => DirectiveModel::Disallow(value@),
            Directive::Other => DirectiveModel::Other,
        }
    }
}

/// The keyword, colon included, that opens a block of rules.
pub open spec fn user_agent_key() -> Seq<char> {
    "User-agent:"@
}

/// The keyword, colon included, that forbids a path prefix.
pub open spec fn disallow_key() -> Seq<char> {
    "Disallow:"@
}

/// The value of a directive line: all that follows its first colon, without
/// surrounding white space.
pub open spec fn directive_value(text: Seq<char>) -> Seq<char> {
    trimmed(after_first(text, ':'))
}

/// What a line says: it is trimmed, then told apart by the keyword it begins
/// with, case-sensitively.
pub open spec fn directive_of(line: Seq<char>) -> DirectiveModel {
    let text = trimmed(line);
    if user_agent_key().is_prefix_of(text) {
        DirectiveModel::UserAgent(directive_value(text))
    } else if disallow_key().is_prefix_of(text) {
        DirectiveModel::Disallow(directive_value(text))
    } else {
        DirectiveModel::Other
    }
}

/// What each line of a document says, in order. Lines are separated by the
/// line feed character.
pub open spec fn directives_of(document: Seq<char>) -> Seq<DirectiveModel> {
    fields(document, '\n').map_values(|line: Seq<char>| directive_of(line))
}

/// The agents that the block around line `i` is addressed to: those of the
/// nearest `User-agent` line before line `i`, if there is one.
pub open spec fn block_header(directives: Seq<DirectiveModel>, i: int) -> Option<AgentModel>
    decreases i,
{
    if i <= 0 || i > directives.len() {
        None
    } else {
        match directives[i - 1] {
            DirectiveModel::UserAgent(value) => Some(matcher_of(value)),
            _ => block_header(directives, i - 1),
        }
    }
}

/// The rule that line `i` contributes: a `Disallow` line with a value that is
/// not empty, inside a block, forbids that value to the block's agents.
pub open spec fn rule_at(directives: Seq<DirectiveModel>, i: int) -> Option<RuleModel> {
    match (directives[i], block_header(directives, i)) {
        (DirectiveModel::Disallow(prefix), Some(agents)) => if prefix.len() > 0 {
            Some(RuleModel { applies_to: agents, disallowed_path_prefix: prefix })
        } else {
            None
        },
        _ => None,
    }
}

/// The rule of each line, line by line.
pub open spec fn rule_of_each(directives: Seq<DirectiveModel>) -> Seq<Option<RuleModel>> {
    Seq::new(directives.len(), |i: int| rule_at(directives, i))
}

/// Keeps the rules that are there.
pub open spec fn present() -> spec_fn(Option<RuleModel>) -> Option<RuleModel> {
    |rule: Option<RuleModel>| rule
}

/// The rules of an exclusion document, in the order of its lines.
pub open spec fn rules_of(document: Seq<char>) -> Seq<RuleModel> {
    rule_of_each(directives_of(document)).filter_map(present())
}

/// What `line` says, given the two keywords as characters.
fn classify_with(line: &[char], user_agent: &[char], disallow: &[char]) -> (d: Directive)
    requires
        user_agent@ == user_agent_key(),
        disallow@ == disallow_key(),
    ensures
        d@ == directive_of(line@),
{
    let text = trim(line);
    if starts_with(text, user_agent) {
        Directive::UserAgent(string_of(trim(rest_after(text, ':'))))
    } else if starts_with(text, disallow) {
        Directive::Disallow(string_of(trim(rest_after(text, ':'))))
    } else {
        Directive::Other
    }
}

/// What one line of an exclusion document says.
pub fn classify(line: &str) -> (d: Directive)
    ensures
        d@ == directive_of(line@),
{
    let chars = chars_of(line);
    let user_agent = chars_of("User-agent:");
    let disallow = chars_of("Disallow:");
    classify_with(chars.as_slice(), user_agent.as_slice(), disallow.as_slice())
}

/// Reads an exclusion document into its rules, in the order of its lines.
/// Lines that are no directive, `Disallow` lines without a value and
/// `Disallow` lines before the first `User-agent` line give no rule; no
/// document is refused.
pub fn parse_rules(document: &str) -> (rules: Vec<ExclusionRule>)
    ensures
        rule_models(rules@) == rules_of(document@),
{
    let chars = chars_of(document);
    let user_agent = chars_of("User-agent:");
    let disallow = chars_of("Disallow:");
    let ghost lines = fields(chars@, '\n');
    let ghost directives = directives_of(chars@);
    let ghost each = rule_of_each(directives);
    let mut rules: Vec<ExclusionRule> = Vec::new();
    let mut header: Option<AgentMatcher> = None;
    let mut pos: usize = 0;
    let ghost mut seen: int = 0;
    proof {
        assert(lines.skip(0) =~= lines);
        assert(each.take(0).filter_map(present()) =~= Seq::<RuleModel>::empty());
        assert(rule_models(rules@) =~= Seq::<RuleModel>::empty());
    }
    loop
        invariant_except_break
            pos <= chars.len(),
            0 <= seen < lines.len(),
            lines.skip(seen) == fields_from(chars@, '\n', pos as int),
            match header {
                Some(agents) => block_header(directives, seen) == Some(agents@),
                None => block_header(directives, seen) is None,
            },
            rule_models(rules@) == each.take(seen).filter_map(present()),
        invariant
            chars@ == document@,
            user_agent@ == user_agent_key(),
            disallow@ == disallow_key(),
            lines == fields(chars@, '\n'),
            directives == directives_of(chars@),
            each == rule_of_each(directives),
        ensures
            rule_models(rules@) == each.filter_map(present()),
        decreases chars.len() - pos,
    {
        let end = find_char(chars.as_slice(), '\n', pos);
        let line = slice_subrange(chars.as_slice(), pos, end);
        proof {
            let rest = fields_from(chars@, '\n', end as int + 1);
            assert(lines.skip(seen) == seq![line@] + rest);
            assert(lines.skip(seen)[0] == line@);
            assert(lines[seen] == line@);
            assert(directives[seen] == directive_of(line@));
            let tail = lines.skip(seen);
            assert(tail.len() == rest.len() + 1);
            assert forall|j: int| 0 <= j < rest.len() implies lines.skip(seen + 1)[j] == rest[j] by {
                assert(tail[j + 1] == lines[seen + j + 1]);
                assert(tail[j + 1] == rest[j]);
            }
            assert(lines.skip(seen + 1) =~= rest);
            each.lemma_filter_map_take_succ(present(), seen);
        }
        let ghost before = rule_models(rules@);
        match classify_with(line, user_agent.as_slice(), disallow.as_slice()) {
            Directive::UserAgent(value) => {
                header = Some(AgentMatcher::from_value(value.as_str()));
            },
            Directive::Disallow(value) => {
                if let Some(agents) = &header {
                    if let Some(rule) = ExclusionRule::new(agents.duplicate(), value) {
                        rules.push(rule);
                        assert(rule_models(rules@) =~= before.push(rule@));
                    }
                }
            },
            Directive::Other => {},
        }
        proof {
            seen = seen + 1;
        }
        if end == chars.len() {
            proof {
                assert(lines.skip(seen).len() == 0);
                assert(each.take(seen) =~= each);
            }
            break;
        }
        pos = end + 1;
    }
    rules
}

/// The predicate that holds of the rules addressed to `agent`.
pub open spec fn addressed_to(agent: Seq<char>) -> spec_fn(RuleModel) -> bool {
    |rule: RuleModel| rule.applies_to.covers(agent)
}

/// The rules among `rules` that are addressed to `agent`, in order.
pub fn applicable(rules: &[ExclusionRule], agent: &str) -> (kept: Vec<ExclusionRule>)
    ensures
        rule_models(kept@) == rule_models(rules@).filter(addressed_to(agent@)),
{
    let mut kept: Vec<ExclusionRule> = Vec::new();
    let ghost all = rule_models(rules@);
    let mut i: usize = 0;
    proof {
        assert(all.take(0) =~= Seq::<RuleModel>::empty());
        assert(all.take(0).filter(addressed_to(agent@)) =~= Seq::<RuleModel>::empty());
        assert(rule_models(kept@) =~= Seq::<RuleModel>::empty());
    }
    while i < rules.len()
        invariant
            i <= rules.len(),
            all == rule_models(rules@),
            rule_models(kept@) == all.take(i as int).filter(addressed_to(agent@)),
        decreases rules.len() - i,
    {
        let ghost before = rule_models(kept@);
        proof {
            assert(all.take(i as int + 1) =~= all.take(i as int).push(all[i as int]));
            all.take(i as int).lemma_filter_push(all[i as int], addressed_to(agent@));
        }
        if rules[i].applies_to().covers(agent) {
            let rule = rules[i].duplicate();
            kept.push(rule);
            assert(rule_models(kept@) =~= before.push(rule@));
        }
        i += 1;
    }
    proof {
        assert(all.take(rules.len() as int) =~= all);
    }
    kept
}

/// The outcome of a policy check.
pub struct PolicyDecision {
    allowed: bool,
    matched_rule: Option<ExclusionRule>,
}

/// The mathematical content of a [`PolicyDecision`].
pub struct DecisionModel {
    pub allowed: bool,
    pub matched_rule: Option<RuleModel>,
}

impl View for PolicyDecision {
    type V = DecisionModel;

    closed spec fn view(&self) -> DecisionModel {
        DecisionModel {
            allowed: self.allowed,
            matched_rule: match self.matched_rule {
                Some(rule) => Some(rule@),
                None => None,
            },
        }
    }
}

impl PolicyDecision {
    /// A decision names a rule exactly when it forbids.
    #[verifier::type_invariant]
    spec fn well_formed(self) -> bool {
        self.allowed <==> self.matched_rule is None
    }

    /// Whether the path may be fetched.
    pub fn allowed(&self) -> (r: bool)
        ensures
            r == self@.allowed,
            r <==> self@.matched_rule is None,
    {
        proof {
            use_type_invariant(self);
        }
        self.allowed
    }

    /// The rule that forbids the path, if one does.
    pub fn matched_rule(&self) -> (r: Option<&ExclusionRule>)
        ensures
            r is Some <==> self@.matched_rule is Some,
            r matches Some(rule) ==> self@.matched_rule == Some(rule@),
    {
        self.matched_rule.as_ref()
    }
}

/// The index of the first rule at or after `from` that forbids `path`.
pub open spec fn first_blocking(rules: Seq<RuleModel>, path: Seq<char>, from: int) -> Option<int>
    decreases rules.len() - from,
{
    if from < 0 || from >= rules.len() {
        None
    } else if rules[from].blocks(path) {
        Some(from)
    } else {
        first_blocking(rules, path, from + 1)
    }
}

/// The decision that a list of rules gives for a path: the first rule that
/// forbids the path decides, and without one the path is allowed.
pub open spec fn decision_of(rules: Seq<RuleModel>, path: Seq<char>) -> DecisionModel {
    match first_blocking(rules, path, 0) {
        Some(i) => DecisionModel { allowed: false, matched_rule: Some(rules[i]) },
        None => DecisionModel { allowed: true, matched_rule: None },
    }
}

/// Decides whether `path` may be fetched under `rules`, all of which are
/// taken to be addressed to the requesting agent.
pub fn decide(rules: &[ExclusionRule], path: &str) -> (decision: PolicyDecision)
    ensures
        decision@ == decision_of(rule_models(rules@), path@),
{
    let target = chars_of(path);
    let ghost all = rule_models(rules@);
    let mut i: usize = 0;
    while i < rules.len()
        invariant
            i <= rules.len(),
            target@ == path@,
            all == rule_models(rules@),
            first_blocking(all, path@, 0) == first_blocking(all, path@, i as int),
        decreases rules.len() - i,
    {
        if rules[i].blocks(target.as_slice()) {
            return PolicyDecision { allowed: false, matched_rule: Some(rules[i].duplicate()) };
        }
        i += 1;
    }
    PolicyDecision { allowed: true, matched_rule: None }
}

/// The decision that an exclusion document gives an agent for a path.
pub open spec fn evaluation(document: Seq<char>, agent: Seq<char>, path: Seq<char>)
    -> DecisionModel {
    decision_of(rules_of(document).filter(addressed_to(agent)), path)
}

/// Decides whether the agent named `agent` may fetch `path` under the
/// exclusion document `document`. Every document gets a decision: what
/// cannot be read as a directive is passed over.
pub fn evaluate(document: &str, agent: &str, path: &str) -> (decision: PolicyDecision)
    ensures
        decision@ == evaluation(document@, agent@, path@),
{
    let rules = parse_rules(document);
    let mine = applicable(rules.as_slice(), agent);
    decide(mine.as_slice(), path)
}

/// What `first_blocking` finds: the first rule from `from` on that forbids
/// the path, or nothing when no rule from `from` on forbids it.
pub proof fn lemma_first_blocking(rules: Seq<RuleModel>, path: Seq<char>, from: int)
    requires
        0 <= from <= rules.len(),
    ensures
        match first_blocking(rules, path, from) {
            Some(i) => {
                &&& from <= i < rules.len()
                &&& rules[i].blocks(path)
                &&& forall|j: int| from <= j < i ==> !(#[trigger] rules[j]).blocks(path)
            },
            None => forall|j: int| from <= j < rules.len() ==> !(#[trigger] rules[j]).blocks(path),
        },
    decreases rules.len() - from,
{
    if from < rules.len() && !rules[from].blocks(path) {
        lemma_first_blocking(rules, path, from + 1);
    }
}

/// A path is forbidden exactly when some rule's prefix begins it, and the
/// rule reported is then the first such rule; the order of the rules has no
/// other bearing on the decision.
pub proof fn lemma_decision(rules: Seq<RuleModel>, path: Seq<char>)
    ensures
        decision_of(rules, path).allowed <==> forall|i: int|
            0 <= i < rules.len() ==> !(#[trigger] rules[i]).blocks(path),
        decision_of(rules, path).allowed <==> decision_of(rules, path).matched_rule is None,
        decision_of(rules, path).matched_rule matches Some(rule) ==> exists|i: int|
            {
                &&& 0 <= i < rules.len()
                &&& #[trigger] rules[i] == rule
                &&& rule.blocks(path)
                &&& forall|j: int| 0 <= j < i ==> !(#[trigger] rules[j]).blocks(path)
            },
{
    lemma_first_blocking(rules, path, 0);
}

/// Evaluation is a function of its three texts: any two decisions returned
/// for the same document, agent and path are the same decision.
pub proof fn lemma_evaluate_deterministic(
    document: Seq<char>,
    agent: Seq<char>,
    path: Seq<char>,
    first: PolicyDecision,
    second: PolicyDecision,
)
    requires
        first@ == evaluation(document, agent, path),
        second@ == evaluation(document, agent, path),
    ensures
        first@ == second@,
{
}

/// Rules addressed to other agents never forbid: whatever the document, a
/// forbidding decision names a rule whose block covers the requesting agent
/// and whose prefix begins the path.
pub proof fn lemma_evaluation_matches(document: Seq<char>, agent: Seq<char>, path: Seq<char>)
    ensures
        evaluation(document, agent, path).matched_rule matches Some(rule) ==> {
            &&& rule.applies_to.covers(agent)
            &&& rule.blocks(path)
            &&& rules_of(document).contains(rule)
        },
{
    let mine = rules_of(document).filter(addressed_to(agent));
    lemma_first_blocking(mine, path, 0);
    if let Some(i) = first_blocking(mine, path, 0) {
        rules_of(document).lemma_filter_pred(addressed_to(agent), i);
        assert(mine.contains(mine[i]));
        rules_of(document).lemma_filter_contains_rev(addressed_to(agent), mine[i]);
    }
}

} // verus!
