//! The plain-text report of a result.

use crate::extract::{pair_models, ExtractedElement};
use crate::session::ScrapeResult;
use crate::text::{decimal, lowercase, push_decimal, push_text, same_text, string_of, to_lowercase};
use vstd::prelude::*;

verus! {

/// One line for each attribute: two spaces, the name, a colon and a space,
/// the value.
pub open spec fn attribute_lines(pairs: Seq<(Seq<char>, Seq<char>)>) -> Seq<char>
    decreases pairs.len(),
{
    if pairs.len() == 0 {
        Seq::empty()
    } else {
        attribute_lines(pairs.drop_last()) + "  "@ + pairs.last().0 + ": "@ + pairs.last().1
            + "\n"@
    }
}

/// The line that shows the text of a record; nothing for a record without
/// text.
pub open spec fn text_line(text: Seq<char>) -> Seq<char> {
    if text.len() > 0 {
        "Text: "@ + text + "\n"@
    } else {
        Seq::empty()
    }
}

/// The lines that show the attributes of a record; nothing for a record
/// without attributes.
pub open spec fn attribute_section(pairs: Seq<(Seq<char>, Seq<char>)>) -> Seq<char> {
    if pairs.len() > 0 {
        "Attributes:\n"@ + attribute_lines(pairs)
    } else {
        Seq::empty()
    }
}

/// The block of one record: a heading with the record's number, its text,
/// its attributes, and an empty line.
pub open spec fn element_block(number: nat, element: ExtractedElement) -> Seq<char> {
    "--- Element "@ + decimal(number) + " ---\n"@ + text_line(element@.text) + attribute_section(
        element.pairs(),
    ) + "\n"@
}

/// The blocks of the records, numbered from one.
pub open spec fn element_blocks(elements: Seq<ExtractedElement>) -> Seq<char>
    decreases elements.len(),
{
    if elements.len() == 0 {
        Seq::empty()
    } else {
        element_blocks(elements.drop_last()) + element_block(elements.len(), elements.last())
    }
}

/// The head of a report: title, page, selector, time, and the number of
/// records.
pub open spec fn report_head(result: ScrapeResult) -> Seq<char> {
    "=== Web Scraping Results ===\n"@ + "URL: "@ + result@.url + "\n"@ + "Selector: "@
        + result@.selector + "\n"@ + "Timestamp: "@ + result@.timestamp + "\n"@ + "Found "@
        + decimal(result.records().len()) + " element(s):\n\n"@
}

/// The report of a result: its head, then the block of each record.
pub open spec fn report_of(result: ScrapeResult) -> Seq<char> {
    report_head(result) + element_blocks(result.records())
}

/// Appends one line for each attribute.
fn push_attribute_lines(out: &mut Vec<char>, pairs: &Vec<(String, String)>)
    ensures
        final(out)@ == old(out)@ + attribute_lines(pair_models(pairs@)),
{
    let ghost start = out@;
    let ghost all = pair_models(pairs@);
    let mut i: usize = 0;
    assert(all.take(0) =~= Seq::<(Seq<char>, Seq<char>)>::empty());
    while i < pairs.len()
        invariant
            i <= pairs.len(),
            all == pair_models(pairs@),
            out@ == start + attribute_lines(all.take(i as int)),
        decreases pairs.len() - i,
    {
        let ghost before = out@;
        push_text(out, "  ");
        push_text(out, pairs[i].0.as_str());
        push_text(out, ": ");
        push_text(out, pairs[i].1.as_str());
        push_text(out, "\n");
        proof {
            let next = all.take(i as int + 1);
            assert(next.drop_last() =~= all.take(i as int));
            assert(next.last() == all[i as int]);
            assert(out@ =~= start + attribute_lines(next));
        }
        i += 1;
    }
    assert(all.take(pairs.len() as int) =~= all);
}

/// Appends the block of the record with this number.
fn push_element_block(out: &mut Vec<char>, number: usize, element: &ExtractedElement)
    ensures
        final(out)@ == old(out)@ + element_block(number as nat, *element),
{
    let ghost start = out@;
    push_text(out, "--- Element ");
    push_decimal(out, number as u64);
    push_text(out, " ---\n");
    let text = element.text();
    if !text.is_empty() {
        push_text(out, "Text: ");
        push_text(out, text);
        push_text(out, "\n");
    }
    assert(out@ =~= start + "--- Element "@ + decimal(number as nat) + " ---\n"@ + text_line(
        element@.text,
    ));
    let pairs = element.attributes();
    if pairs.len() > 0 {
        push_text(out, "Attributes:\n");
        push_attribute_lines(out, pairs);
    }
    assert(out@ =~= start + "--- Element "@ + decimal(number as nat) + " ---\n"@ + text_line(
        element@.text,
    ) + attribute_section(element.pairs()));
    push_text(out, "\n");
    assert(out@ =~= start + element_block(number as nat, *element));
}

/// Writes the report of `result`.
pub fn render_text(result: &ScrapeResult) -> (report: String)
    ensures
        report@ == report_of(*result),
{
    let mut out: Vec<char> = Vec::new();
    let elements = result.elements();
    push_text(&mut out, "=== Web Scraping Results ===\n");
    push_text(&mut out, "URL: ");
    push_text(&mut out, result.url());
    push_text(&mut out, "\n");
    push_text(&mut out, "Selector: ");
    push_text(&mut out, result.selector());
    push_text(&mut out, "\n");
    push_text(&mut out, "Timestamp: ");
    push_text(&mut out, result.timestamp());
    push_text(&mut out, "\n");
    push_text(&mut out, "Found ");
    push_decimal(&mut out, elements.len() as u64);
    push_text(&mut out, " element(s):\n\n");
    assert(out@ =~= report_head(*result));
    let ghost head = out@;
    let mut i: usize = 0;
    assert(elements@.take(0) =~= Seq::<ExtractedElement>::empty());
    while i < elements.len()
        invariant
            i <= elements.len(),
            out@ == head + element_blocks(elements@.take(i as int)),
        decreases elements.len() - i,
    {
        push_element_block(&mut out, i + 1, &elements[i]);
        proof {
            let next = elements@.take(i as int + 1);
            assert(next.drop_last() =~= elements@.take(i as int));
            assert(next.last() == elements@[i as int]);
            assert(out@ =~= head + element_blocks(next));
        }
        i += 1;
    }
    assert(elements@.take(elements.len() as int) =~= elements@);
    string_of(out.as_slice())
}

/// How a result is written out.
#[derive(Clone, Copy, Debug, PartialEq, Eq, Structural)]
pub enum OutputFormat {
    /// The plain-text report.
    Text,
    /// The json form.
    Json,
}

/// The format that a name in lower case stands for: json for `json`, the
/// plain-text report for every other name.
pub open spec fn format_of_folded(folded: Seq<char>) -> OutputFormat {
    if folded == "json"@ {
        OutputFormat::Json
    } else {
        OutputFormat::Text
    }
}

impl OutputFormat {
    /// The format that a name stands for, given the name in lower case.
    pub fn from_folded(folded: &str) -> (format: OutputFormat)
        ensures
            format == format_of_folded(folded@),
    {
        if same_text(folded, "json") {
            OutputFormat::Json
        } else {
            OutputFormat::Text
        }
    }

    /// The format that a name stands for, without regard to case.
    pub fn from_name(name: &str) -> (format: OutputFormat)
        ensures
            format == format_of_folded(lowercase(name@)),
    {
        let folded = to_lowercase(name);
        OutputFormat::from_folded(folded.as_str())
    }
}

} // verus!
