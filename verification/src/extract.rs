//! Record extraction: from one page of listing markup to the ordered
//! sequence of records its containers hold.
//!
//! Locating the record containers and their sub-elements is CSS selection,
//! done by the `scraper` crate behind one trusted wrapper. Everything after
//! that point — the presence checks on the required sub-elements and the
//! assembly of the record sequence — is verified: a page extracts to `Ok`
//! exactly when every container carries its primary-text and attribution
//! sub-elements, and the records keep container order.

use vstd::prelude::*;

use crate::record::{container_views, record_views, ContainerView, RawContainer, Record, RecordView};

verus! {

/// Why extraction of a page failed: the first container (in document
/// order) missing a required sub-element, and which sub-element it was.
/// The primary-text sub-element is checked before the attribution one.
#[derive(Debug, Clone, PartialEq, Eq)]
pub enum ExtractError {
    MissingText { index: usize },
    MissingAuthor { index: usize },
}

impl ExtractError {
    /// Position of the offending container in document order.
    pub open spec fn spec_index(self) -> int {
        match self {
            ExtractError::MissingText { index } => index as int,
            ExtractError::MissingAuthor { index } => index as int,
        }
    }
}

/// A container is complete when both required sub-elements are present.
/// Tags are optional: an empty tag sequence is not an error.
pub open spec fn container_ok(c: ContainerView) -> bool {
    c.text is Some && c.author is Some
}

/// A page extracts without error when every one of its containers is
/// complete.
pub open spec fn page_ok(cs: Seq<ContainerView>) -> bool {
    forall|i: int| 0 <= i < cs.len() ==> container_ok(#[trigger] cs[i])
}

/// The record a complete container yields.
pub open spec fn record_of(c: ContainerView) -> RecordView {
    RecordView { text: c.text->0, author: c.author->0, tags: c.tags }
}

/// The records of a page, one per container, in container order.
pub open spec fn records_of(cs: Seq<ContainerView>) -> Seq<RecordView> {
    cs.map_values(|c: ContainerView| record_of(c))
}

/// The error that a page with an incomplete container reports: it names
/// the first incomplete container and its first missing sub-element.
pub open spec fn expected_error(cs: Seq<ContainerView>, e: ExtractError) -> bool {
    &&& 0 <= e.spec_index() < cs.len()
    &&& !container_ok(cs[e.spec_index()])
    &&& forall|j: int| 0 <= j < e.spec_index() ==> container_ok(#[trigger] cs[j])
    &&& (e is MissingText <==> cs[e.spec_index()].text is None)
    &&& (e is MissingAuthor ==> cs[e.spec_index()].author is None)
}

/// The containers that CSS selection finds in one page of markup, in
/// document order, with the sub-fields each carries.
pub uninterp spec fn markup_containers(markup: Seq<char>) -> Seq<ContainerView>;

/// Relies on scraper 0.27: `Html::parse_document`, `select` on the
/// document and on each element, and `ElementRef::inner_html`. Selection
/// walks the parsed tree in document order, so which containers come back,
/// their order and their sub-fields are a function of the markup text
/// alone; the selector strings are fixed valid CSS, so no call here fails.
#[verifier::external_body]
fn scan_containers(markup: &str) -> (r: Vec<RawContainer>)
    ensures
        container_views(r@) == markup_containers(markup@),
{
    let doc = scraper::Html::parse_document(markup);
    let quote = scraper::Selector::parse(".quote").unwrap();
    let text = scraper::Selector::parse(".text").unwrap();
    let author = scraper::Selector::parse(".author").unwrap();
    let tag = scraper::Selector::parse(".tag").unwrap();
    doc.select(&quote)
        .map(|c| RawContainer {
            text: c.select(&text).next().map(|e| e.inner_html()),
            author: c.select(&author).next().map(|e| e.inner_html()),
            tags: c.select(&tag).map(|e| e.inner_html()).collect(),
        })
        .collect()
}

/// Copies a tag list; the copy holds the same strings in the same order.
fn copy_strings(v: &Vec<String>) -> (r: Vec<String>)
    ensures
        r@ == v@,
{
    let mut r: Vec<String> = Vec::new();
    let mut i: usize = 0;
    while i < v.len()
        invariant
            i <= v@.len(),
            r@ == v@.take(i as int),
        decreases v@.len() - i,
    {
        r.push(v[i].clone());
        assert(r@ =~= v@.take(i + 1 as int));
        i = i + 1;
    }
    assert(r@ =~= v@);
    r
}

/// Turns the containers of one page into its records.
///
/// Succeeds exactly when every container is complete; the result then
/// holds one record per container, in container order, each carrying that
/// container's sub-fields. Otherwise reports the first incomplete
/// container and its first missing sub-element, as [`expected_error`]
/// states.
pub fn extract_records(containers: &Vec<RawContainer>) -> (r: Result<Vec<Record>, ExtractError>)
    ensures
        r is Ok <==> page_ok(container_views(containers@)),
        r is Ok ==> record_views(r->Ok_0@) == records_of(container_views(containers@)),
        r is Err ==> expected_error(container_views(containers@), r->Err_0),
{
    let ghost cs = container_views(containers@);
    let mut out: Vec<Record> = Vec::new();
    let mut i: usize = 0;
    while i < containers.len()
        invariant
            cs == container_views(containers@),
            cs.len() == containers@.len(),
            i <= containers@.len(),
            out@.len() == i,
            forall|j: int| 0 <= j < i ==> container_ok(#[trigger] cs[j]),
            record_views(out@) == records_of(cs.take(i as int)),
        decreases containers@.len() - i,
    {
        let c = &containers[i];
        proof {
            assert(cs[i as int] == containers@[i as int]@);
        }
        let text = match &c.text {
            Option::Some(t) => t.clone(),
            Option::None => {
                proof {
                    assert(!container_ok(cs[i as int]));
                }
                return Err(ExtractError::MissingText { index: i });
            },
        };
        let author = match &c.author {
            Option::Some(a) => a.clone(),
            Option::None => {
                proof {
                    assert(!container_ok(cs[i as int]));
                }
                return Err(ExtractError::MissingAuthor { index: i });
            },
        };
        let tags = copy_strings(&c.tags);
        let rec = Record { text, author, tags };
        assert(rec@ == record_of(cs[i as int]));
        let ghost prev = out@;
        out.push(rec);
        proof {
            assert forall|k: int| 0 <= k < i as int + 1 implies record_views(out@)[k]
                == records_of(cs.take(i as int + 1))[k] by {
                if k < i as int {
                    assert(record_views(prev)[k] == records_of(cs.take(i as int))[k]);
                    assert(out@[k] == prev[k]);
                    assert(cs.take(i as int)[k] == cs[k]);
                    assert(cs.take(i as int + 1)[k] == cs[k]);
                } else {
                    assert(out@[k] == rec);
                    assert(cs.take(i as int + 1)[k] == cs[i as int]);
                }
            }
            assert(record_views(out@) =~= records_of(cs.take(i as int + 1)));
        }
        i = i + 1;
    }
    assert(cs.take(i as int) =~= cs);
    Ok(out)
}

/// Extracts every record of one page of markup, in container order.
///
/// The containers are those CSS selection finds ([`markup_containers`]);
/// the verdict and the records follow [`extract_records`]'s contract on
/// them.
pub fn extract_from_markup(markup: &str) -> (r: Result<Vec<Record>, ExtractError>)
    ensures
        r is Ok <==> page_ok(markup_containers(markup@)),
        r is Ok ==> record_views(r->Ok_0@) == records_of(markup_containers(markup@)),
        r is Err ==> expected_error(markup_containers(markup@), r->Err_0),
{
    let cs = scan_containers(markup);
    extract_records(&cs)
}

/// Within one page, extraction keeps container order: there is one record
/// per complete container, and the record at each position comes from the
/// container at that same position.
pub proof fn lemma_records_keep_container_order(cs: Seq<ContainerView>, k: int)
    requires
        0 <= k < cs.len(),
    ensures
        records_of(cs).len() == cs.len(),
        records_of(cs)[k] == record_of(cs[k]),
{
}

/// Extraction is deterministic: identical markup yields the identical
/// verdict and the identical record sequence.
pub proof fn lemma_extraction_deterministic(a: Seq<char>, b: Seq<char>)
    requires
        a == b,
    ensures
        page_ok(markup_containers(a)) == page_ok(markup_containers(b)),
        records_of(markup_containers(a)) == records_of(markup_containers(b)),
{
}

} // verus!
