//! The plain data that flows through the pipeline: one extracted record,
//! and the raw sub-fields read out of one record container in the markup.

use vstd::prelude::*;

verus! {

/// One extracted structured item: primary text, attribution, and the tag
/// names in document order. Immutable once constructed.
#[derive(Debug, Clone, PartialEq, Eq)]
pub struct Record {
    pub text: String,
    pub author: String,
    pub tags: Vec<String>,
}

/// The mathematical value of a [`Record`].
pub struct RecordView {
    pub text: Seq<char>,
    pub author: Seq<char>,
    pub tags: Seq<Seq<char>>,
}

impl View for Record {
    type V = RecordView;

    open spec fn view(&self) -> RecordView {
        RecordView {
            text: self.text@,
            author: self.author@,
            tags: self.tags@.map_values(|t: String| t@),
        }
    }
}

/// What a markup scan reads out of one record container: the primary-text
/// and attribution sub-elements as found (or absent), and every tag
/// sub-element in document order. A missing sub-field is `None`, never an
/// empty string.
#[derive(Debug, Clone, PartialEq, Eq)]
pub struct RawContainer {
    pub text: Option<String>,
    pub author: Option<String>,
    pub tags: Vec<String>,
}

/// The mathematical value of a [`RawContainer`].
pub struct ContainerView {
    pub text: Option<Seq<char>>,
    pub author: Option<Seq<char>>,
    pub tags: Seq<Seq<char>>,
}

impl View for RawContainer {
    type V = ContainerView;

    open spec fn view(&self) -> ContainerView {
        ContainerView {
            text: match self.text {
                Option::Some(t) => Option::Some(t@),
                Option::None => Option::None,
            },
            author: match self.author {
                Option::Some(a) => Option::Some(a@),
                Option::None => Option::None,
            },
            tags: self.tags@.map_values(|t: String| t@),
        }
    }
}

/// The views of a sequence of raw containers, element by element.
pub open spec fn container_views(v: Seq<RawContainer>) -> Seq<ContainerView> {
    v.map_values(|c: RawContainer| c.view())
}

/// The views of a sequence of records, element by element.
pub open spec fn record_views(v: Seq<Record>) -> Seq<RecordView> {
    v.map_values(|r: Record| r.view())
}

} // verus!
