//! A structured document: the tree that a recipe's text is read into.

use vstd::prelude::*;

verus! {

/// A node of a structured document.
#[derive(Debug)]
pub enum Doc {
    Null,
    Bool(bool),
    /// A number, in its canonical text form.
    Number(String),
    Text(String),
    List(Vec<Doc>),
    /// Key/value entries, in document order.
    Mapping(Vec<(Doc, Doc)>),
    /// A value carrying an explicit type tag.
    Tagged(String, Box<Doc>),
}

/// The mathematical form of a [`Doc`].
pub enum DocView {
    Null,
    Bool(bool),
    Number(Seq<char>),
    Text(Seq<char>),
    List(Seq<DocView>),
    /// Keys and values, in document order; both have the same length.
    Mapping(Seq<DocView>, Seq<DocView>),
    Tagged(Seq<char>, Box<DocView>),
}

impl View for Doc {
    type V = DocView;

    open spec fn view(&self) -> DocView
        decreases self,
    {
        match self {
            Doc::Null => DocView::Null,
            Doc::Bool(b) => DocView::Bool(*b),
            Doc::Number(s) => DocView::Number(s@),
            Doc::Text(s) => DocView::Text(s@),
            Doc::List(items) => DocView::List(
                Seq::new(
                    items.len() as nat,
                    |i: int|
                        if 0 <= i < items.len() {
                            items[i].view()
                        } else {
                            DocView::Null
                        },
                ),
            ),
            Doc::Mapping(entries) => DocView::Mapping(
                Seq::new(
                    entries.len() as nat,
                    |i: int|
                        if 0 <= i < entries.len() {
                            entries[i].0.view()
                        } else {
                            DocView::Null
                        },
                ),
                Seq::new(
                    entries.len() as nat,
                    |i: int|
                        if 0 <= i < entries.len() {
                            entries[i].1.view()
                        } else {
                            DocView::Null
                        },
                ),
            ),
            Doc::Tagged(t, inner) => DocView::Tagged(t@, Box::new((**inner).view())),
        }
    }
}

#[verifier::external_type_specification]
#[verifier::external_body]
pub struct ExYamlValue(serde_yaml::Value);

/// The tree that serde_yaml reads from `text`, or the message of the error it
/// refuses the text with.
pub uninterp spec fn yaml_document(text: Seq<char>) -> Result<DocView, Seq<char>>;

/// Relies on `serde_yaml::from_str::<serde_yaml::Value>`: the text is read into
/// a tree of YAML values, or refused with an error whose message is kept. Both
/// depend on the text alone.
#[verifier::external_body]
pub(crate) fn read_document(text: &str) -> (r: Result<Doc, String>)
    ensures
        match yaml_document(text@) {
            Ok(d) => r matches Ok(x) && x@ == d,
            Err(e) => r matches Err(m) && m@ == e,
        },
{
    match serde_yaml::from_str::<serde_yaml::Value>(text) {
        Ok(v) => Ok(doc_of_value(&v)),
        Err(e) => Err(e.to_string()),
    }
}

/// Relies on the variants of `serde_yaml::Value`: each YAML value becomes the
/// node of the same kind, with its children converted in order. Only
/// [`read_document`] calls it, and states what the whole tree is.
#[verifier::external_body]
fn doc_of_value(v: &serde_yaml::Value) -> Doc {
    match v {
        serde_yaml::Value::Null => Doc::Null,
        serde_yaml::Value::Bool(b) => Doc::Bool(*b),
        serde_yaml::Value::Number(n) => Doc::Number(n.to_string()),
        serde_yaml::Value::String(s) => Doc::Text(s.clone()),
        serde_yaml::Value::Sequence(items) => Doc::List(items.iter().map(doc_of_value).collect()),
        serde_yaml::Value::Mapping(m) => Doc::Mapping(
            m.iter().map(|(k, x)| (doc_of_value(k), doc_of_value(x))).collect(),
        ),
        serde_yaml::Value::Tagged(t) => Doc::Tagged(
            t.tag.to_string(),
            Box::new(doc_of_value(&t.value)),
        ),
    }
}

} // verus!
