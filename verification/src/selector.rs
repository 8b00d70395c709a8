//! Selector matching: compiling a selector expression, parsing markup, and
//! listing what the extractor reads of each matching node.

use crate::error::{ErrorModel, ScrapeError};
use crate::extract::{node_models, MatchedNode, NodeModel, pair_models, text_models};
use vstd::prelude::*;
use vstd::string::StrSliceExecFns;

verus! {

#[verifier::external_type_specification]
#[verifier::external_body]
pub struct ExHtml(scraper::Html);

#[verifier::external_type_specification]
#[verifier::external_body]
pub struct ExSelector(scraper::Selector);

#[verifier::external_type_specification]
#[verifier::external_body]
pub struct ExSelectorErrorKind(scraper::error::SelectorErrorKind);

#[verifier::external_type_specification]
#[verifier::external_body]
pub struct ExElementRef<'a>(scraper::ElementRef<'a>);

#[verifier::external_type_specification]
#[verifier::external_body]
pub struct ExElement(scraper::node::Element);

/// The selector that `Selector::parse` compiles from a text; none for a text
/// that it refuses.
pub uninterp spec fn selector_of(text: Seq<char>) -> Option<scraper::Selector>;

/// Whether a text follows the selector grammar: whether `Selector::parse`
/// accepts it.
pub open spec fn selector_parses(text: Seq<char>) -> bool {
    selector_of(text) is Some
}

/// The longest markup, in characters, that is handed to the parser. The
/// parser keeps text in buffers that grow by rounding their capacity in
/// bytes up to a power of two, which has to fit a 32-bit number: no buffer
/// may pass 2^31 bytes. A character takes four bytes at most, so a markup
/// within the limit takes less than 2^30 bytes, half of what a buffer holds.
pub const MAX_MARKUP_CHARS: usize = 0x0fff_ffff;

/// The tree that `Html::parse_document` builds from a markup text.
pub uninterp spec fn tree_of(markup: Seq<char>) -> scraper::Html;

/// The elements that `Html::select` hands out for a tree and a selector, in
/// the order in which it hands them out.
pub uninterp spec fn selection(tree: &scraper::Html, selector: scraper::Selector) -> Seq<
    scraper::ElementRef,
>;

/// The texts that `ElementRef::text` hands out for an element, in the order
/// in which it hands them out.
pub uninterp spec fn text_nodes(element: scraper::ElementRef) -> Seq<Seq<char>>;

/// The element that `ElementRef::value` gives for an element reference.
pub uninterp spec fn referent(element: scraper::ElementRef) -> scraper::node::Element;

/// The attributes that `Element::attrs` hands out for an element, name then
/// value, in the order in which it hands them out.
pub uninterp spec fn attribute_list(element: scraper::node::Element) -> Seq<
    (Seq<char>, Seq<char>),
>;

/// Parses a selector group.
///
/// Trusted: `scraper::Selector::parse` accepts or refuses a text, and builds
/// the selector, from the text alone; the contract gives that outcome its
/// name and claims nothing else of it.
#[verifier::external_body]
fn parse_selector(text: &str) -> (r: Result<scraper::Selector, scraper::error::SelectorErrorKind>)
    ensures
        r is Ok <==> selector_of(text@) is Some,
        r matches Ok(selector) ==> selector_of(text@) == Some(selector),
{
    scraper::Selector::parse(text)
}

/// Parses markup into a document tree.
///
/// Trusted: `scraper::Html::parse_document` returns, for every text short
/// enough that none of the parser's buffers passes 2^31 bytes, a tree that
/// depends on the text alone; the contract gives the tree its name and
/// claims nothing else of it. Longer texts, on which a buffer's length or
/// capacity check may fail, are left out.
#[verifier::external_body]
fn parse_markup(markup: &str) -> (tree: scraper::Html)
    requires
        markup@.len() <= MAX_MARKUP_CHARS,
    ensures
        tree == tree_of(markup@),
{
    scraper::Html::parse_document(markup)
}

/// The elements of `tree` that `selector` matches, as `Html::select` hands
/// them out.
///
/// Trusted: `scraper::Html::select` returns an iterator that ends, and what
/// it yields depends on the tree and the selector alone; the contract gives
/// the elements their name and claims nothing else of them.
#[verifier::external_body]
fn select_elements<'a>(tree: &'a scraper::Html, selector: &scraper::Selector) -> (found: Vec<
    scraper::ElementRef<'a>,
>)
    ensures
        found@ == selection(tree, *selector),
{
    tree.select(selector).collect()
}

/// The text nodes below `element`, as `ElementRef::text` hands them out.
///
/// Trusted: the iterator ends, and what it yields depends on the element
/// alone; the contract gives the texts their name and claims nothing else of
/// them.
#[verifier::external_body]
fn element_texts(element: &scraper::ElementRef) -> (texts: Vec<String>)
    ensures
        text_models(texts@) == text_nodes(*element),
{
    element.text().map(String::from).collect()
}

/// The element that `element` refers to.
///
/// Trusted: `ElementRef::value` returns for every element reference; the
/// contract gives the element its name and claims nothing else of it.
#[verifier::external_body]
fn element_value<'a>(element: &scraper::ElementRef<'a>) -> (value: &'a scraper::node::Element)
    ensures
        *value == referent(*element),
{
    element.value()
}

/// The attributes of `element`, name then value, as `Element::attrs` hands
/// them out.
///
/// Trusted: the iterator ends, and what it yields depends on the element
/// alone; the contract gives the pairs their name and claims nothing else of
/// them.
#[verifier::external_body]
fn element_attributes(element: &scraper::node::Element) -> (pairs: Vec<(String, String)>)
    ensures
        pair_models(pairs@) == attribute_list(*element),
{
    element.attrs().map(|(name, value)| (name.to_string(), value.to_string())).collect()
}

/// What the extractor reads of an element: the texts below it and its own
/// attributes.
pub open spec fn node_of(element: scraper::ElementRef) -> NodeModel {
    NodeModel { texts: text_nodes(element), attributes: attribute_list(referent(element)) }
}

/// What the extractor reads of each element that a selector matches in a
/// markup text, in the order in which the parsed tree hands the elements out.
/// The selector is given as its text, which is taken to be well formed.
pub open spec fn matches_of(markup: Seq<char>, selector: Seq<char>) -> Seq<NodeModel>
    recommends
        selector_parses(selector),
{
    let found = selection(&tree_of(markup), selector_of(selector)->0);
    Seq::new(found.len(), |i: int| node_of(found[i]))
}

/// A compiled selector, with the text it was compiled from.
pub struct SelectorExpression {
    text: String,
    compiled: scraper::Selector,
}

impl View for SelectorExpression {
    type V = Seq<char>;

    closed spec fn view(&self) -> Seq<char> {
        self.text@
    }
}

impl SelectorExpression {
    /// The compiled form is the one that the text compiles to.
    #[verifier::type_invariant]
    spec fn well_formed(self) -> bool {
        selector_of(self.text@) == Some(self.compiled)
    }

    /// The text the selector was compiled from.
    pub fn text(&self) -> (text: &str)
        ensures
            text@ == self@,
            selector_parses(self@),
    {
        proof {
            use_type_invariant(self);
        }
        self.text.as_str()
    }
}

/// Compiles a selector text. A text that does not follow the selector
/// grammar is refused, and no other.
pub fn compile(selector_text: &str) -> (r: Result<SelectorExpression, ScrapeError>)
    ensures
        r is Ok <==> selector_parses(selector_text@),
        r matches Ok(expression) ==> expression@ == selector_text@,
        r matches Err(error) ==> error@ == (ErrorModel::SelectorSyntax {
            selector: selector_text@,
        }),
{
    match parse_selector(selector_text) {
        Ok(compiled) => Ok(SelectorExpression { text: selector_text.to_owned(), compiled }),
        Err(_) => Err(ScrapeError::SelectorSyntax { selector: selector_text.to_owned() }),
    }
}

/// A parsed page. Its view is the markup it was parsed from.
pub struct Document {
    tree: scraper::Html,
    source: Ghost<Seq<char>>,
}

impl View for Document {
    type V = Seq<char>;

    closed spec fn view(&self) -> Seq<char> {
        self.source@
    }
}

impl Document {
    /// The tree is the one that the markup parses to.
    #[verifier::type_invariant]
    spec fn well_formed(self) -> bool {
        self.tree == tree_of(self.source@)
    }
}

/// Parses markup into a document. Every text of at most
/// [`MAX_MARKUP_CHARS`] characters is accepted, for the parser mends what is
/// malformed; a longer text gives no document.
pub fn parse_document(markup: &str) -> (document: Option<Document>)
    ensures
        document is Some <==> markup@.len() <= MAX_MARKUP_CHARS,
        document matches Some(parsed) ==> parsed@ == markup@,
{
    if markup.unicode_len() <= MAX_MARKUP_CHARS {
        Some(Document { tree: parse_markup(markup), source: Ghost(markup@) })
    } else {
        None
    }
}

/// What the extractor reads of each node of `document` that `selector`
/// matches, in the order in which the document hands the nodes out.
pub fn match_nodes(document: &Document, selector: &SelectorExpression) -> (nodes: Vec<MatchedNode>)
    ensures
        node_models(nodes@) == matches_of(document@, selector@),
{
    proof {
        use_type_invariant(document);
        use_type_invariant(selector);
    }
    let found = select_elements(&document.tree, &selector.compiled);
    let mut nodes: Vec<MatchedNode> = Vec::new();
    let mut i: usize = 0;
    while i < found.len()
        invariant
            i <= found.len(),
            nodes.len() == i,
            forall|j: int| 0 <= j < i ==> (#[trigger] nodes@[j])@ == node_of(found@[j]),
        decreases found.len() - i,
    {
        let texts = element_texts(&found[i]);
        let attributes = element_attributes(element_value(&found[i]));
        nodes.push(MatchedNode { texts, attributes });
        i += 1;
    }
    assert(node_models(nodes@) =~= matches_of(document@, selector@));
    nodes
}

} // verus!
