//! The request that a run repeats: the entry of the request file that describes it, and
//! the endpoint that results once its templates are resolved.

use crate::error::UnsupportedFeatureError;
use crate::text::{decimal_text, push_decimal};
use vstd::prelude::*;
use vstd::string::StringExecFns;

verus! {

/// One piece of a templated text.
#[derive(Debug, Clone)]
pub enum TemplateElement {
    /// Literal text.
    Text(String),
    /// An expression to be filled in, given by its source text.
    Placeholder(String),
}

/// A text in pieces, as the request file writes a URL, a header name or a header value.
#[derive(Debug, Clone)]
pub struct Template {
    pub elements: Vec<TemplateElement>,
}

/// A header of an entry.
#[derive(Debug, Clone)]
pub struct KeyValue {
    pub key: Template,
    pub value: Template,
}

/// One entry of a request file, as far as a run reads it.
#[derive(Debug, Clone)]
pub struct Entry {
    pub method: String,
    pub url: Template,
    pub headers: Vec<KeyValue>,
}

/// The text that the pieces `elements` make up, one after the other: `None` where one of
/// them is a placeholder.
pub open spec fn resolved(elements: Seq<TemplateElement>) -> Option<Seq<char>>
    decreases elements.len(),
{
    if elements.len() == 0 {
        Some(Seq::empty())
    } else {
        match (resolved(elements.drop_last()), elements.last()) {
            (Some(text), TemplateElement::Text(piece)) => Some(text + piece@),
            _ => None,
        }
    }
}

/// The name and the value of a header, resolved.
pub open spec fn resolved_header(header: KeyValue) -> Option<(Seq<char>, Seq<char>)> {
    match (resolved(header.key.elements@), resolved(header.value.elements@)) {
        (Some(key), Some(value)) => Some((key, value)),
        _ => None,
    }
}

/// A text resolves exactly where none of its pieces is a placeholder.
pub proof fn lemma_resolved_iff_literal(elements: Seq<TemplateElement>)
    ensures
        resolved(elements) is Some <==> forall|i: int|
            0 <= i < elements.len() ==> #[trigger] elements[i] is Text,
    decreases elements.len(),
{
    if elements.len() > 0 {
        let front = elements.drop_last();
        lemma_resolved_iff_literal(front);
        if resolved(elements) is Some {
            assert forall|i: int| 0 <= i < elements.len() implies #[trigger] elements[i] is Text by {
                if i < front.len() {
                    assert(front[i] is Text);
                }
            }
        } else if elements.last() is Text {
            let i = choose|i: int| 0 <= i < front.len() && !(#[trigger] front[i] is Text);
            assert(!(elements[i] is Text));
        }
    }
}

/// Joins the pieces of a template into one text. Only literal text is supported: a
/// placeholder is refused.
pub fn resolve_template(template: &Template) -> (r: Result<String, UnsupportedFeatureError>)
    ensures
        match r {
            Ok(text) => resolved(template.elements@) == Some(text@),
            Err(e) => resolved(template.elements@) is None
                && e == UnsupportedFeatureError::Placeholder,
        },
        r is Ok <==> forall|i: int|
            0 <= i < template.elements@.len() ==> #[trigger] template.elements@[i] is Text,
{
    proof {
        lemma_resolved_iff_literal(template.elements@);
    }
    let mut text = String::new();
    let mut i: usize = 0;
    while i < template.elements.len()
        invariant
            i <= template.elements.len(),
            resolved(template.elements@.take(i as int)) == Some(text@),
        decreases template.elements.len() - i,
    {
        let ghost next = template.elements@.take(i + 1);
        assert(next.drop_last() =~= template.elements@.take(i as int));
        match &template.elements[i] {
            TemplateElement::Text(piece) => {
                text.append(piece.as_str());
            },
            TemplateElement::Placeholder(_) => {
                proof {
                    lemma_unresolved_stays(template.elements@, i + 1);
                }
                return Err(UnsupportedFeatureError::Placeholder);
            },
        }
        i += 1;
    }
    assert(template.elements@.take(i as int) =~= template.elements@);
    Ok(text)
}

/// Where the first `k` pieces do not resolve, the whole does not.
proof fn lemma_unresolved_stays(elements: Seq<TemplateElement>, k: int)
    requires
        0 <= k <= elements.len(),
        resolved(elements.take(k)) is None,
    ensures
        resolved(elements) is None,
    decreases elements.len() - k,
{
    if k == elements.len() {
        assert(elements.take(k) =~= elements);
    } else {
        assert(elements.take(k + 1).drop_last() =~= elements.take(k));
        lemma_unresolved_stays(elements, k + 1);
    }
}

/// The request that every worker repeats.
#[derive(Debug, Clone)]
pub struct Endpoint {
    pub url: String,
    pub headers: Vec<(String, String)>,
    pub method: String,
    pub body: Option<()>,
}

/// An endpoint with its texts as sequences of characters.
pub struct EndpointView {
    pub url: Seq<char>,
    pub headers: Seq<(Seq<char>, Seq<char>)>,
    pub method: Seq<char>,
    pub has_body: bool,
}

impl View for Endpoint {
    type V = EndpointView;

    open spec fn view(&self) -> EndpointView {
        EndpointView {
            url: self.url@,
            headers: Seq::new(
                self.headers@.len(),
                |i: int| (self.headers@[i].0@, self.headers@[i].1@),
            ),
            method: self.method@,
            has_body: self.body is Some,
        }
    }
}

/// The endpoint that `entry` describes: its URL and its headers resolved, in their order,
/// its method as it is written, and no body. `None` where a template of the entry holds
/// a placeholder.
pub open spec fn endpoint_of(entry: Entry) -> Option<EndpointView> {
    if resolved(entry.url.elements@) is Some && (forall|i: int|
        0 <= i < entry.headers@.len() ==> #[trigger] resolved_header(entry.headers@[i]) is Some) {
        Some(
            EndpointView {
                url: resolved(entry.url.elements@).unwrap(),
                headers: Seq::new(
                    entry.headers@.len(),
                    |i: int| resolved_header(entry.headers@[i]).unwrap(),
                ),
                method: entry.method@,
                has_body: false,
            },
        )
    } else {
        None
    }
}

/// The line that describes the endpoint `e`.
pub open spec fn description(e: EndpointView) -> Seq<char> {
    e.method + ": "@ + e.url + ", "@ + decimal_text(e.headers.len()) + " headers, "@ + if e.has_body {
        "body"@
    } else {
        "no body"@
    }
}

impl Endpoint {
    /// The endpoint that an entry of the request file describes.
    pub fn new(entry: &Entry) -> (r: Result<Endpoint, UnsupportedFeatureError>)
        ensures
            match r {
                Ok(endpoint) => endpoint_of(*entry) == Some(endpoint@),
                Err(e) => endpoint_of(*entry) is None && e == UnsupportedFeatureError::Placeholder,
            },
    {
        let url = match resolve_template(&entry.url) {
            Ok(text) => text,
            Err(e) => {
                return Err(e);
            },
        };
        let mut headers: Vec<(String, String)> = Vec::new();
        let mut i: usize = 0;
        while i < entry.headers.len()
            invariant
                i <= entry.headers.len(),
                headers@.len() == i,
                forall|j: int|
                    0 <= j < i ==> #[trigger] resolved_header(entry.headers@[j]) == Some(
                        (headers@[j].0@, headers@[j].1@),
                    ),
            decreases entry.headers.len() - i,
        {
            let key = match resolve_template(&entry.headers[i].key) {
                Ok(text) => text,
                Err(e) => {
                    assert(resolved_header(entry.headers@[i as int]) is None);
                    return Err(e);
                },
            };
            let value = match resolve_template(&entry.headers[i].value) {
                Ok(text) => text,
                Err(e) => {
                    assert(resolved_header(entry.headers@[i as int]) is None);
                    return Err(e);
                },
            };
            headers.push((key, value));
            i += 1;
        }
        let endpoint = Endpoint { url, headers, body: None, method: entry.method.clone() };
        assert(endpoint@.headers =~= endpoint_of(*entry).unwrap().headers);
        Ok(endpoint)
    }

    /// One line that describes the endpoint: its method, its URL, the number of its
    /// headers and whether it has a body.
    pub fn to_string(&self) -> (r: String)
        ensures
            r@ == description(self@),
    {
        let mut line = self.method.clone();
        line.append(": ");
        line.append(self.url.as_str());
        line.append(", ");
        push_decimal(&mut line, self.headers.len());
        line.append(" headers, ");
        match self.body {
            Some(_) => line.append("body"),
            None => line.append("no body"),
        }
        line
    }
}

} // verus!
