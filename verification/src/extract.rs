//! Element extraction: from what a matched node holds to a structured record.

use crate::text::{
    is_space, lemma_trimmed_blank, push_text, same_text, string_of, trim, trimmed,
};
use vstd::prelude::*;

verus! {

/// What the extractor reads of one matched node.
pub struct MatchedNode {
    /// The text nodes below the node, in document order.
    pub texts: Vec<String>,
    /// The node's own attributes, name then value, as the parser lists them.
    pub attributes: Vec<(String, String)>,
}

/// The mathematical content of a [`MatchedNode`].
pub struct NodeModel {
    pub texts: Seq<Seq<char>>,
    pub attributes: Seq<(Seq<char>, Seq<char>)>,
}

/// The contents of a list of texts.
pub open spec fn text_models(texts: Seq<String>) -> Seq<Seq<char>> {
    texts.map_values(|text: String| text@)
}

/// The contents of a list of name/value pairs.
pub open spec fn pair_models(pairs: Seq<(String, String)>) -> Seq<(Seq<char>, Seq<char>)> {
    pairs.map_values(|pair: (String, String)| (pair.0@, pair.1@))
}

impl View for MatchedNode {
    type V = NodeModel;

    open spec fn view(&self) -> NodeModel {
        NodeModel { texts: text_models(self.texts@), attributes: pair_models(self.attributes@) }
    }
}

/// The texts one after the other, with a single space between neighbours.
pub open spec fn joined(texts: Seq<Seq<char>>) -> Seq<char>
    decreases texts.len(),
{
    if texts.len() == 0 {
        Seq::empty()
    } else if texts.len() == 1 {
        texts[0]
    } else {
        joined(texts.drop_last()) + seq![' '] + texts.last()
    }
}

/// The mapping that name/value pairs build when they are entered in order:
/// a later pair replaces an earlier one of the same name.
pub open spec fn attribute_map(pairs: Seq<(Seq<char>, Seq<char>)>) -> Map<Seq<char>, Seq<char>>
    decreases pairs.len(),
{
    if pairs.len() == 0 {
        Map::empty()
    } else {
        attribute_map(pairs.drop_last()).insert(pairs.last().0, pairs.last().1)
    }
}

/// No name occurs twice among the pairs.
pub open spec fn distinct_names(pairs: Seq<(Seq<char>, Seq<char>)>) -> bool {
    forall|i: int, j: int| 0 <= i < j < pairs.len() ==> pairs[i].0 != pairs[j].0
}

/// The mapping built from pairs holds exactly the names of the pairs; where
/// no name occurs twice, each name maps to the value it stands with.
pub proof fn lemma_attribute_map(pairs: Seq<(Seq<char>, Seq<char>)>)
    ensures
        forall|name: Seq<char>| #[trigger]
            attribute_map(pairs).dom().contains(name) <==> exists|i: int|
                0 <= i < pairs.len() && (#[trigger] pairs[i]).0 == name,
        distinct_names(pairs) ==> forall|i: int|
            0 <= i < pairs.len() ==> attribute_map(pairs)[(#[trigger] pairs[i]).0] == pairs[i].1,
        (attribute_map(pairs) == Map::<Seq<char>, Seq<char>>::empty()) <==> pairs.len() == 0,
    decreases pairs.len(),
{
    if pairs.len() > 0 {
        let rest = pairs.drop_last();
        lemma_attribute_map(rest);
        let last = pairs.last();
        assert forall|name: Seq<char>| #[trigger]
            attribute_map(pairs).dom().contains(name) <==> exists|i: int|
                0 <= i < pairs.len() && (#[trigger] pairs[i]).0 == name by {
            if attribute_map(pairs).dom().contains(name) {
                if name == last.0 {
                    assert(pairs[pairs.len() - 1].0 == name);
                } else {
                    let i = choose|i: int| 0 <= i < rest.len() && (#[trigger] rest[i]).0 == name;
                    assert(pairs[i].0 == name);
                }
            }
            if exists|i: int| 0 <= i < pairs.len() && (#[trigger] pairs[i]).0 == name {
                let i = choose|i: int| 0 <= i < pairs.len() && (#[trigger] pairs[i]).0 == name;
                if i < rest.len() {
                    assert(rest[i].0 == name);
                }
            }
        }
        if distinct_names(pairs) {
            assert(distinct_names(rest)) by {
                assert forall|i: int, j: int| 0 <= i < j < rest.len() implies rest[i].0
                    != rest[j].0 by {
                    assert(pairs[i].0 != pairs[j].0);
                }
            }
            assert forall|i: int| 0 <= i < pairs.len() implies attribute_map(pairs)[(
            #[trigger] pairs[i]).0] == pairs[i].1 by {
                if i < rest.len() {
                    assert(rest[i] == pairs[i]);
                    assert(pairs[i].0 != pairs[pairs.len() - 1].0);
                }
            }
        }
        assert(attribute_map(pairs).dom().contains(last.0));
    }
}

/// The mapping does not depend on the order of the pairs: two lists without
/// repeated names that hold the same pairs build the same mapping.
pub proof fn lemma_attribute_map_order(
    first: Seq<(Seq<char>, Seq<char>)>,
    second: Seq<(Seq<char>, Seq<char>)>,
)
    requires
        distinct_names(first),
        distinct_names(second),
        forall|pair: (Seq<char>, Seq<char>)| first.contains(pair) <==> second.contains(pair),
    ensures
        attribute_map(first) == attribute_map(second),
{
    lemma_attribute_map(first);
    lemma_attribute_map(second);
    let left = attribute_map(first);
    let right = attribute_map(second);
    assert forall|name: Seq<char>| left.dom().contains(name) implies right.dom().contains(name)
        && left[name] == right[name] by {
        let i = choose|i: int| 0 <= i < first.len() && (#[trigger] first[i]).0 == name;
        assert(first.contains(first[i]));
        assert(second.contains(first[i]));
        let j = choose|j: int| 0 <= j < second.len() && second[j] == first[i];
        assert(second[j].0 == name);
    }
    assert forall|name: Seq<char>| right.dom().contains(name) implies left.dom().contains(
        name,
    ) by {
        let j = choose|j: int| 0 <= j < second.len() && (#[trigger] second[j]).0 == name;
        assert(second.contains(second[j]));
        assert(first.contains(second[j]));
        let i = choose|i: int| 0 <= i < first.len() && first[i] == second[j];
        assert(first[i].0 == name);
    }
    assert(left =~= right);
}

/// Replacing the value of an entry in a list without repeated names is
/// entering the name with its new value into the mapping.
pub proof fn lemma_replace_value(pairs: Seq<(Seq<char>, Seq<char>)>, at: int, value: Seq<char>)
    requires
        distinct_names(pairs),
        0 <= at < pairs.len(),
    ensures
        distinct_names(pairs.update(at, (pairs[at].0, value))),
        attribute_map(pairs.update(at, (pairs[at].0, value))) == attribute_map(pairs).insert(
            pairs[at].0,
            value,
        ),
    decreases pairs.len(),
{
    let name = pairs[at].0;
    let changed = pairs.update(at, (name, value));
    assert(distinct_names(changed)) by {
        assert forall|i: int, j: int| 0 <= i < j < changed.len() implies changed[i].0
            != changed[j].0 by {
            assert(pairs[i].0 != pairs[j].0);
        }
    }
    let rest = pairs.drop_last();
    if at == pairs.len() - 1 {
        assert(changed.drop_last() =~= rest);
        assert(attribute_map(changed) =~= attribute_map(pairs).insert(name, value));
    } else {
        assert(distinct_names(rest)) by {
            assert forall|i: int, j: int| 0 <= i < j < rest.len() implies rest[i].0
                != rest[j].0 by {
                assert(pairs[i].0 != pairs[j].0);
            }
        }
        lemma_replace_value(rest, at, value);
        assert(changed.drop_last() =~= rest.update(at, (name, value)));
        assert(changed.last() == pairs.last());
        assert(pairs[at].0 != pairs[pairs.len() - 1].0);
        assert(attribute_map(changed) =~= attribute_map(pairs).insert(name, value));
    }
}

/// The texts one after the other, with a single space between neighbours.
pub fn join_texts(texts: &[String]) -> (out: Vec<char>)
    ensures
        out@ == joined(text_models(texts@)),
{
    let mut out: Vec<char> = Vec::new();
    let ghost all = text_models(texts@);
    let mut i: usize = 0;
    assert(all.take(0) =~= Seq::<Seq<char>>::empty());
    while i < texts.len()
        invariant
            i <= texts.len(),
            all == text_models(texts@),
            out@ == joined(all.take(i as int)),
        decreases texts.len() - i,
    {
        let ghost before = out@;
        if i > 0 {
            out.push(' ');
        }
        push_text(&mut out, texts[i].as_str());
        proof {
            let next = all.take(i as int + 1);
            assert(next.drop_last() =~= all.take(i as int));
            assert(next.last() == texts@[i as int]@);
            if i > 0 {
                assert(out@ =~= before + seq![' '] + texts@[i as int]@);
            } else {
                assert(before =~= Seq::<char>::empty());
                assert(out@ =~= texts@[i as int]@);
                assert(next[0] == texts@[i as int]@);
            }
        }
        i += 1;
    }
    assert(all.take(texts.len() as int) =~= all);
    out
}

/// The place of `name` among the names of `pairs`, if it is there.
fn find_name(pairs: &Vec<(String, String)>, name: &str) -> (r: Option<usize>)
    ensures
        match r {
            Some(at) => at < pairs.len() && pairs@[at as int].0@ == name@,
            None => forall|i: int| 0 <= i < pairs.len() ==> (#[trigger] pairs@[i]).0@ != name@,
        },
{
    let mut i: usize = 0;
    while i < pairs.len()
        invariant
            i <= pairs.len(),
            forall|j: int| 0 <= j < i ==> (#[trigger] pairs@[j]).0@ != name@,
        decreases pairs.len() - i,
    {
        if same_text(pairs[i].0.as_str(), name) {
            return Some(i);
        }
        i += 1;
    }
    None
}

/// Enters name/value pairs, in order, into a list that holds no name twice:
/// a pair whose name is already there replaces the value of that entry.
pub fn collect_attributes(raw: &[(String, String)]) -> (kept: Vec<(String, String)>)
    ensures
        distinct_names(pair_models(kept@)),
        attribute_map(pair_models(kept@)) == attribute_map(pair_models(raw@)),
        kept.len() == 0 <==> raw.len() == 0,
{
    let mut kept: Vec<(String, String)> = Vec::new();
    let ghost all = pair_models(raw@);
    let mut i: usize = 0;
    assert(all.take(0) =~= Seq::<(Seq<char>, Seq<char>)>::empty());
    assert(pair_models(kept@) =~= Seq::<(Seq<char>, Seq<char>)>::empty());
    while i < raw.len()
        invariant
            i <= raw.len(),
            all == pair_models(raw@),
            distinct_names(pair_models(kept@)),
            attribute_map(pair_models(kept@)) == attribute_map(all.take(i as int)),
            kept.len() == 0 <==> i == 0,
        decreases raw.len() - i,
    {
        let ghost before = pair_models(kept@);
        let name = raw[i].0.clone();
        let value = raw[i].1.clone();
        proof {
            assert(all.take(i as int + 1).drop_last() =~= all.take(i as int));
            assert(all.take(i as int + 1).last() == (name@, value@));
        }
        match find_name(&kept, name.as_str()) {
            Some(at) => {
                kept.set(at, (name, value));
                proof {
                    assert(before[at as int].0 == name@);
                    lemma_replace_value(before, at as int, value@);
                    assert(pair_models(kept@) =~= before.update(at as int, (name@, value@)));
                }
            },
            None => {
                kept.push((name, value));
                proof {
                    assert(pair_models(kept@) =~= before.push((name@, value@)));
                    assert(pair_models(kept@).drop_last() =~= before);
                    assert forall|a: int, b: int|
                        0 <= a < b < pair_models(kept@).len() implies pair_models(kept@)[a].0
                        != pair_models(kept@)[b].0 by {
                        if b < before.len() {
                            assert(before[a].0 != before[b].0);
                        } else {
                            assert(before[a] == pair_models(kept@)[a]);
                            assert(kept@[a].0@ != name@);
                        }
                    }
                }
            },
        }
        i += 1;
    }
    assert(all.take(raw.len() as int) =~= all);
    kept
}

/// One extracted record: the text of a node and its attributes.
pub struct ExtractedElement {
    text: String,
    attributes: Vec<(String, String)>,
}

/// The mathematical content of an [`ExtractedElement`]: its text, and its
/// attributes as a mapping from name to value.
pub struct ElementModel {
    pub text: Seq<char>,
    pub attributes: Map<Seq<char>, Seq<char>>,
}

impl View for ExtractedElement {
    type V = ElementModel;

    closed spec fn view(&self) -> ElementModel {
        ElementModel {
            text: self.text@,
            attributes: attribute_map(pair_models(self.attributes@)),
        }
    }
}

impl ExtractedElement {
    /// No attribute name is held twice, and a record is never empty: it has
    /// text, or attributes, or both.
    #[verifier::type_invariant]
    spec fn well_formed(self) -> bool {
        &&& distinct_names(pair_models(self.attributes@))
        &&& self.text@.len() > 0 || self.attributes@.len() > 0
    }

    /// The attributes, name then value, in the order in which they are kept.
    pub closed spec fn pairs(&self) -> Seq<(Seq<char>, Seq<char>)> {
        pair_models(self.attributes@)
    }

    /// The record with this text and these attributes, entered in order;
    /// none when there is neither text nor any attribute.
    pub fn new(text: &str, attributes: &[(String, String)]) -> (r: Option<ExtractedElement>)
        ensures
            r is None <==> text@.len() == 0 && attributes@.len() == 0,
            r matches Some(element) ==> element@ == (ElementModel {
                text: text@,
                attributes: attribute_map(pair_models(attributes@)),
            }),
    {
        let kept = collect_attributes(attributes);
        if text.is_empty() && kept.len() == 0 {
            None
        } else {
            Some(ExtractedElement { text: text.to_owned(), attributes: kept })
        }
    }

    /// The text of the record.
    pub fn text(&self) -> (text: &str)
        ensures
            text@ == self@.text,
    {
        self.text.as_str()
    }

    /// The attributes of the record, name then value, no name twice.
    pub fn attributes(&self) -> (pairs: &Vec<(String, String)>)
        ensures
            pair_models(pairs@) == self.pairs(),
            distinct_names(self.pairs()),
            attribute_map(self.pairs()) == self@.attributes,
            self@.text.len() > 0 || pairs@.len() > 0,
    {
        proof {
            use_type_invariant(self);
        }
        &self.attributes
    }

    /// The value of the attribute called `name`, if the record has it.
    pub fn attribute(&self, name: &str) -> (value: Option<&str>)
        ensures
            value is Some <==> self@.attributes.dom().contains(name@),
            value matches Some(found) ==> found@ == self@.attributes[name@],
    {
        proof {
            use_type_invariant(self);
            lemma_attribute_map(pair_models(self.attributes@));
        }
        match find_name(&self.attributes, name) {
            Some(at) => {
                assert(pair_models(self.attributes@)[at as int].0 == name@);
                Some(self.attributes[at].1.as_str())
            },
            None => {
                assert forall|i: int| 0 <= i < self.attributes@.len() implies (
                #[trigger] pair_models(self.attributes@)[i]).0 != name@ by {
                    assert(self.attributes@[i].0@ != name@);
                }
                None
            },
        }
    }
}

/// The contents of a list of records.
pub open spec fn element_models(elements: Seq<ExtractedElement>) -> Seq<ElementModel> {
    elements.map_values(|element: ExtractedElement| element@)
}

/// The contents of a list of nodes.
pub open spec fn node_models(nodes: Seq<MatchedNode>) -> Seq<NodeModel> {
    nodes.map_values(|node: MatchedNode| node@)
}

/// The text of a node: its text nodes joined by single spaces, then trimmed.
pub open spec fn node_text(node: NodeModel) -> Seq<char> {
    trimmed(joined(node.texts))
}

/// The record of a node: its text and its attributes; none for a node that
/// has neither.
pub open spec fn extraction(node: NodeModel) -> Option<ElementModel> {
    if node_text(node).len() == 0 && node.attributes.len() == 0 {
        None
    } else {
        Some(ElementModel { text: node_text(node), attributes: attribute_map(node.attributes) })
    }
}

/// `extraction`, as a value.
pub open spec fn extracting() -> spec_fn(NodeModel) -> Option<ElementModel> {
    |node: NodeModel| extraction(node)
}

/// The record of a node, or none for a node without text and attributes.
pub fn extract(node: &MatchedNode) -> (r: Option<ExtractedElement>)
    ensures
        match r {
            Some(element) => extraction(node@) == Some(element@),
            None => extraction(node@) is None,
        },
{
    let whole = join_texts(node.texts.as_slice());
    let text = string_of(trim(whole.as_slice()));
    ExtractedElement::new(text.as_str(), node.attributes.as_slice())
}

/// The records of the nodes that have one, in the order of the nodes.
pub fn extract_all(nodes: &[MatchedNode]) -> (elements: Vec<ExtractedElement>)
    ensures
        element_models(elements@) == node_models(nodes@).filter_map(extracting()),
{
    let mut elements: Vec<ExtractedElement> = Vec::new();
    let ghost all = node_models(nodes@);
    let mut i: usize = 0;
    assert(all.take(0) =~= Seq::<NodeModel>::empty());
    assert(element_models(elements@) =~= Seq::<ElementModel>::empty());
    while i < nodes.len()
        invariant
            i <= nodes.len(),
            all == node_models(nodes@),
            element_models(elements@) == all.take(i as int).filter_map(extracting()),
        decreases nodes.len() - i,
    {
        let ghost before = element_models(elements@);
        proof {
            all.lemma_filter_map_take_succ(extracting(), i as int);
        }
        if let Some(element) = extract(&nodes[i]) {
            elements.push(element);
            assert(element_models(elements@) =~= before.push(element@));
        }
        i += 1;
    }
    assert(all.take(nodes.len() as int) =~= all);
    elements
}

/// Every character of every text is white space.
pub open spec fn blank_texts(texts: Seq<Seq<char>>) -> bool {
    forall|i: int, j: int|
        0 <= i < texts.len() && 0 <= j < texts[i].len() ==> is_space(#[trigger] texts[i][j])
}

/// Joining texts that hold nothing but white space gives nothing but white
/// space.
pub proof fn lemma_joined_blank(texts: Seq<Seq<char>>)
    requires
        blank_texts(texts),
    ensures
        forall|k: int| 0 <= k < joined(texts).len() ==> is_space(#[trigger] joined(texts)[k]),
    decreases texts.len(),
{
    if texts.len() == 1 {
        assert forall|k: int| 0 <= k < joined(texts).len() implies is_space(
            #[trigger] joined(texts)[k],
        ) by {
            assert(is_space(texts[0][k]));
        }
    } else if texts.len() > 1 {
        let rest = texts.drop_last();
        assert(blank_texts(rest)) by {
            assert forall|i: int, j: int|
                0 <= i < rest.len() && 0 <= j < rest[i].len() implies is_space(
                #[trigger] rest[i][j],
            ) by {
                assert(is_space(texts[i][j]));
            }
        }
        lemma_joined_blank(rest);
        let head = joined(rest);
        assert forall|k: int| 0 <= k < joined(texts).len() implies is_space(
            #[trigger] joined(texts)[k],
        ) by {
            if k < head.len() {
                assert(joined(texts)[k] == head[k]);
            } else if k == head.len() {
                assert(joined(texts)[k] == ' ');
            } else {
                assert(joined(texts)[k] == texts.last()[k - head.len() - 1]);
                assert(is_space(texts[texts.len() - 1][k - head.len() - 1]));
            }
        }
    }
}

/// Extraction drops the empty nodes and no others: a node gives no record
/// exactly when its text trims to nothing and it has no attribute. So a node
/// with an attribute gives a record whatever its text, and a node without
/// attributes whose texts are all white space gives none.
pub proof fn lemma_extraction_filters(node: NodeModel)
    ensures
        extraction(node) is None <==> node_text(node).len() == 0 && node.attributes.len() == 0,
        node.attributes.len() > 0 ==> extraction(node) is Some,
        node.attributes.len() == 0 && blank_texts(node.texts) ==> extraction(node) is None,
        extraction(node) matches Some(element) ==> (element.text.len() > 0 || exists|
            name: Seq<char>,
        | #[trigger] element.attributes.dom().contains(name)),
{
    if blank_texts(node.texts) {
        lemma_joined_blank(node.texts);
        lemma_trimmed_blank(joined(node.texts));
    }
    if node.attributes.len() > 0 {
        lemma_attribute_map(node.attributes);
        let name = node.attributes[0].0;
        assert(extraction(node)->0.attributes.dom().contains(name));
    }
}

/// The place among `nodes` of the node that gives record number `k`.
pub open spec fn source_of(nodes: Seq<NodeModel>, k: int) -> int
    decreases nodes.len(),
{
    if nodes.len() == 0 {
        -1
    } else {
        let rest = nodes.drop_last();
        if extraction(nodes.last()) is Some && k == rest.filter_map(extracting()).len() {
            nodes.len() - 1
        } else {
            source_of(rest, k)
        }
    }
}

/// Every record comes from a node: record number `k` is the record of the
/// node at `source_of(nodes, k)`.
pub proof fn lemma_source_of(nodes: Seq<NodeModel>, k: int)
    requires
        0 <= k < nodes.filter_map(extracting()).len(),
    ensures
        0 <= source_of(nodes, k) < nodes.len(),
        extraction(nodes[source_of(nodes, k)]) == Some(nodes.filter_map(extracting())[k]),
    decreases nodes.len(),
{
    let rest = nodes.drop_last();
    let kept = rest.filter_map(extracting());
    if extraction(nodes.last()) is Some && k == kept.len() {
    } else {
        lemma_source_of(rest, k);
    }
}

/// Extraction keeps the order of the nodes: of two records, the earlier one
/// comes from the earlier node.
pub proof fn lemma_extraction_keeps_order(nodes: Seq<NodeModel>, a: int, b: int)
    requires
        0 <= a < b < nodes.filter_map(extracting()).len(),
    ensures
        0 <= source_of(nodes, a) < source_of(nodes, b) < nodes.len(),
        extraction(nodes[source_of(nodes, a)]) == Some(nodes.filter_map(extracting())[a]),
        extraction(nodes[source_of(nodes, b)]) == Some(nodes.filter_map(extracting())[b]),
    decreases nodes.len(),
{
    lemma_source_of(nodes, a);
    lemma_source_of(nodes, b);
    let rest = nodes.drop_last();
    let kept = rest.filter_map(extracting());
    if extraction(nodes.last()) is Some && b == kept.len() {
        lemma_source_of(rest, a);
    } else {
        lemma_extraction_keeps_order(rest, a, b);
    }
}

} // verus!
