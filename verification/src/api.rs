//! The catalogue's side of the tool: where to ask, and how its answers are read
//! into papers and references. Sending the requests is left to the caller.

use crate::json::{array_of, decode, decoded, element_of, member_of, opt_str, text_of, Json};
use crate::models::{opt_text, reference_views, Paper, PaperView, Reference, ReferenceView};
use crate::text::{
    after_last, before_first, cut_after_last, cut_before_first, decimal, lemma_texts_push,
    parse_u32, parsed_u32, texts, to_decimal,
};
use vstd::prelude::*;
use vstd::string::*;

verus! {

/// Why an answer of the catalogue gave no record.
#[derive(Debug)]
pub enum ApiError {
    /// The search was answered with a status outside 200 to 299.
    FetchFailed { status: u16 },
    /// The request for a record was answered with a status outside 200 to 299.
    DetailsFetchFailed { status: u16 },
    /// The body is not JSON.
    InvalidBody,
    /// The search answer holds no list of hits.
    InvalidFormat,
    /// The list of hits is empty.
    NotFound { arxiv_id: String },
    /// The record has no control number.
    MissingControlNumber,
}

/// The mathematical value of an `ApiError`.
pub enum ApiErrorView {
    FetchFailed { status: u16 },
    DetailsFetchFailed { status: u16 },
    InvalidBody,
    InvalidFormat,
    NotFound { arxiv_id: Seq<char> },
    MissingControlNumber,
}

impl View for ApiError {
    type V = ApiErrorView;

    open spec fn view(&self) -> ApiErrorView {
        match self {
            ApiError::FetchFailed { status } => ApiErrorView::FetchFailed { status: *status },
            ApiError::DetailsFetchFailed { status } => ApiErrorView::DetailsFetchFailed {
                status: *status,
            },
            ApiError::InvalidBody => ApiErrorView::InvalidBody,
            ApiError::InvalidFormat => ApiErrorView::InvalidFormat,
            ApiError::NotFound { arxiv_id } => ApiErrorView::NotFound { arxiv_id: arxiv_id@ },
            ApiError::MissingControlNumber => ApiErrorView::MissingControlNumber,
        }
    }
}

impl ApiErrorView {
    /// The error in words.
    pub open spec fn message(self) -> Seq<char> {
        match self {
            ApiErrorView::FetchFailed { status } => "Failed to fetch paper: "@ + decimal(
                status as nat,
            ),
            ApiErrorView::DetailsFetchFailed { status } => "Failed to fetch paper details: "@
                + decimal(status as nat),
            ApiErrorView::InvalidBody => "Invalid response body"@,
            ApiErrorView::InvalidFormat => "Invalid response format"@,
            ApiErrorView::NotFound { arxiv_id } => "Paper not found with ArXiv ID: "@ + arxiv_id,
            ApiErrorView::MissingControlNumber => "Missing control number"@,
        }
    }
}

impl ApiError {
    /// The error in words.
    pub fn to_string(&self) -> (r: String)
        ensures
            r@ == self@.message(),
    {
        match self {
            ApiError::FetchFailed { status } => {
                let number = to_decimal(*status as u64);
                "Failed to fetch paper: ".to_owned().concat(number.as_str())
            },
            ApiError::DetailsFetchFailed { status } => {
                let number = to_decimal(*status as u64);
                "Failed to fetch paper details: ".to_owned().concat(number.as_str())
            },
            ApiError::InvalidBody => "Invalid response body".to_owned(),
            ApiError::InvalidFormat => "Invalid response format".to_owned(),
            ApiError::NotFound { arxiv_id } => "Paper not found with ArXiv ID: ".to_owned().concat(
                arxiv_id.as_str(),
            ),
            ApiError::MissingControlNumber => "Missing control number".to_owned(),
        }
    }
}

/// The value of a parsed paper or of the error in its place.
pub open spec fn paper_outcome(r: Result<Paper, ApiError>) -> Result<PaperView, ApiErrorView> {
    match r {
        Ok(paper) => Ok(paper@),
        Err(e) => Err(e@),
    }
}

/// The value of a parsed reference or of the error in its place.
pub open spec fn reference_outcome(r: Result<Reference, ApiError>) -> Result<
    ReferenceView,
    ApiErrorView,
> {
    match r {
        Ok(reference) => Ok(reference@),
        Err(e) => Err(e@),
    }
}

/// The value of a parsed reference list or of the error in its place.
pub open spec fn references_outcome(r: Result<Vec<Reference>, ApiError>) -> Result<
    Seq<ReferenceView>,
    ApiErrorView,
> {
    match r {
        Ok(references) => Ok(reference_views(references@)),
        Err(e) => Err(e@),
    }
}

/// Whether an HTTP status reports success: 200 to 299.
pub open spec fn is_success(status: u16) -> bool {
    200 <= status < 300
}

/// The strings that the members `field` of `items` hold, in order; an item
/// without such a string is passed over.
pub open spec fn field_texts(items: Seq<Json>, field: Seq<char>) -> Seq<Seq<char>>
    decreases items.len(),
{
    if items.len() == 0 {
        Seq::empty()
    } else {
        match items.last().member(field).text() {
            Some(t) => field_texts(items.drop_last(), field).push(t),
            None => field_texts(items.drop_last(), field),
        }
    }
}

/// The strings under `field` in the elements of `list`; none where `list` is no
/// array.
pub open spec fn names(list: Json, field: Seq<char>) -> Seq<Seq<char>> {
    match list.elements() {
        Some(items) => field_texts(items, field),
        None => Seq::empty(),
    }
}

/// The year that a date starts with: the number before its first `-`.
pub open spec fn year_in(date: Option<Seq<char>>) -> Option<u32> {
    match date {
        Some(d) => parsed_u32(before_first(d, '-')),
        None => None,
    }
}

/// The title, or `Unknown Title` in its absence.
pub open spec fn title_or_unknown(title: Option<Seq<char>>) -> Seq<char> {
    match title {
        Some(t) => t,
        None => "Unknown Title"@,
    }
}

/// The date of a paper's record: its preprint date, else that of its first imprint.
pub open spec fn paper_date(data: Json) -> Option<Seq<char>> {
    match data.member("preprint_date"@).text() {
        Some(d) => Some(d),
        None => data.member("imprints"@).element(0).member("date"@).text(),
    }
}

/// The paper that a record of the catalogue describes. The control number, in
/// decimal, is its identifier, and a record without one is refused; every other
/// field falls back to a default.
pub open spec fn parsed_paper(data: Json) -> Result<PaperView, ApiErrorView> {
    match data.member("control_number"@).unsigned() {
        None => Err(ApiErrorView::MissingControlNumber),
        Some(number) => Ok(
            PaperView {
                id: decimal(number as nat),
                title: title_or_unknown(
                    data.member("titles"@).element(0).member("title"@).text(),
                ),
                authors: names(data.member("authors"@), "full_name"@),
                arxiv_id: data.member("arxiv_eprints"@).element(0).member("value"@).text(),
                categories: names(data.member("inspire_categories"@), "term"@),
                year: year_in(paper_date(data)),
            },
        ),
    }
}

/// The catalogue identifier in a record link: what follows its last `/`.
pub open spec fn linked_id(link: Option<Seq<char>>) -> Option<Seq<char>> {
    match link {
        Some(url) => Some(after_last(url, '/')),
        None => None,
    }
}

/// The reference that an entry of a reference list describes. Every field falls
/// back to a default.
pub open spec fn parsed_reference(data: Json) -> ReferenceView {
    let inner = data.member("reference"@);
    ReferenceView {
        title: title_or_unknown(inner.member("title"@).member("title"@).text()),
        authors: names(inner.member("authors"@), "full_name"@),
        arxiv_id: inner.member("arxiv_eprint"@).text(),
        inspire_id: linked_id(data.member("record"@).member("$ref"@).text()),
        categories: names(inner.member("inspire_categories"@), "term"@),
        year: year_in(inner.member("imprint"@).member("date"@).text()),
    }
}

/// The references that the entries describe, one for each.
pub open spec fn parsed_references(items: Seq<Json>) -> Seq<ReferenceView> {
    Seq::new(items.len(), |i: int| parsed_reference(items[i]))
}

/// The paper that a search answer names: the record of its first hit.
pub open spec fn found_paper(arxiv_id: Seq<char>, json: Json) -> Result<PaperView, ApiErrorView> {
    match json.member("hits"@).member("hits"@).elements() {
        None => Err(ApiErrorView::InvalidFormat),
        Some(hits) => if hits.len() == 0 {
            Err(ApiErrorView::NotFound { arxiv_id })
        } else {
            parsed_paper(hits[0].member("metadata"@))
        },
    }
}

/// The references that a record answer lists; none where it holds no list.
pub open spec fn found_references(json: Json) -> Seq<ReferenceView> {
    match json.member("metadata"@).member("references"@).elements() {
        Some(items) => parsed_references(items),
        None => Seq::empty(),
    }
}

/// What a search answer with this status and decoded body gives.
pub open spec fn paper_answer(arxiv_id: Seq<char>, status: u16, body: Option<Json>) -> Result<
    PaperView,
    ApiErrorView,
> {
    if !is_success(status) {
        Err(ApiErrorView::FetchFailed { status })
    } else {
        match body {
            None => Err(ApiErrorView::InvalidBody),
            Some(json) => found_paper(arxiv_id, json),
        }
    }
}

/// What a record answer with this status and decoded body gives.
pub open spec fn references_answer(status: u16, body: Option<Json>) -> Result<
    Seq<ReferenceView>,
    ApiErrorView,
> {
    if !is_success(status) {
        Err(ApiErrorView::DetailsFetchFailed { status })
    } else {
        match body {
            None => Err(ApiErrorView::InvalidBody),
            Some(json) => Ok(found_references(json)),
        }
    }
}

/// The strings under `field` in the elements of what a lookup found.
fn collect_names(list: Option<&Json>, field: &str) -> (r: Vec<String>)
    ensures
        texts(r@) == names(crate::json::or_null(list), field@),
{
    let mut out: Vec<String> = Vec::new();
    match array_of(list) {
        None => {
            assert(texts(out@) =~= Seq::<Seq<char>>::empty());
        },
        Some(items) => {
            let n = items.len();
            let mut i: usize = 0;
            assert(texts(out@) =~= field_texts(items@.take(0), field@));
            while i < n
                invariant
                    n == items.len(),
                    i <= n,
                    texts(out@) == field_texts(items@.take(i as int), field@),
                decreases n - i,
            {
                proof {
                    assert(items@.take(i + 1).drop_last() =~= items@.take(i as int));
                    assert(items@.take(i + 1).last() == items@[i as int]);
                }
                match text_of(items[i].get(field)) {
                    Some(s) => {
                        let owned = s.clone();
                        proof {
                            lemma_texts_push(out@, owned);
                        }
                        out.push(owned);
                    },
                    None => {},
                }
                i = i + 1;
            }
            assert(items@.take(n as int) =~= items@);
        },
    }
    out
}

/// The year that a date starts with.
fn year_of(date: Option<&String>) -> (r: Option<u32>)
    ensures
        r == year_in(opt_str(date)),
{
    match date {
        Some(d) => {
            let head = cut_before_first(d.as_str(), '-');
            parse_u32(head.as_str())
        },
        None => None,
    }
}

/// The title, or `Unknown Title` in its absence.
fn title_of(title: Option<&String>) -> (r: String)
    ensures
        r@ == title_or_unknown(opt_str(title)),
{
    match title {
        Some(t) => t.clone(),
        None => "Unknown Title".to_owned(),
    }
}

/// A copy of a string that a lookup found.
fn owned_text(value: Option<&String>) -> (r: Option<String>)
    ensures
        opt_text(r) == opt_str(value),
{
    match value {
        Some(s) => Some(s.clone()),
        None => None,
    }
}

/// Whether an HTTP status reports success.
pub fn status_is_success(status: u16) -> (b: bool)
    ensures
        b == is_success(status),
{
    200 <= status && status < 300
}

/// What is known of the catalogue: the address of its interface.
pub struct InspireClient {
    base_url: String,
}

impl InspireClient {
    /// The address of the catalogue's interface.
    pub closed spec fn base(&self) -> Seq<char> {
        self.base_url@
    }

    /// A client of the public catalogue.
    pub fn new() -> (r: Self)
        ensures
            r.base() == "https://inspirehep.net/api"@,
    {
        InspireClient { base_url: "https://inspirehep.net/api".to_owned() }
    }

    /// The address of the catalogue's interface.
    pub fn base_url(&self) -> (r: &str)
        ensures
            r@ == self.base(),
    {
        self.base_url.as_str()
    }

    /// The address that searches are sent to.
    pub fn search_url(&self) -> (r: String)
        ensures
            r@ == self.base() + "/literature"@,
    {
        self.base_url.clone().concat("/literature")
    }

    /// The search expression that finds a paper by its preprint identifier.
    pub fn search_query(&self, arxiv_id: &str) -> (r: String)
        ensures
            r@ == "arxiv:"@ + arxiv_id@,
    {
        "arxiv:".to_owned().concat(arxiv_id)
    }

    /// The address of the record of the paper `paper_id`.
    pub fn record_url(&self, paper_id: &str) -> (r: String)
        ensures
            r@ == self.base() + "/literature/"@ + paper_id@,
    {
        self.base_url.clone().concat("/literature/").concat(paper_id)
    }

    /// Reads a record of the catalogue as a paper.
    pub fn parse_paper(&self, data: &Json) -> (r: Result<Paper, ApiError>)
        ensures
            paper_outcome(r) == parsed_paper(*data),
    {
        let number = match data.get("control_number") {
            Some(v) => v.as_u64(),
            None => None,
        };
        let id = match number {
            Some(n) => to_decimal(n),
            None => {
                return Err(ApiError::MissingControlNumber);
            },
        };
        let title = title_of(
            text_of(member_of(element_of(data.get("titles"), 0), "title")),
        );
        let authors = collect_names(data.get("authors"), "full_name");
        let arxiv_id = owned_text(
            text_of(member_of(element_of(data.get("arxiv_eprints"), 0), "value")),
        );
        let categories = collect_names(data.get("inspire_categories"), "term");
        let date = match text_of(data.get("preprint_date")) {
            Some(d) => Some(d),
            None => text_of(member_of(element_of(data.get("imprints"), 0), "date")),
        };
        let year = year_of(date);
        Ok(Paper { id, title, authors, arxiv_id, categories, year })
    }

    /// Reads an entry of a reference list as a reference. No entry is refused.
    pub fn parse_reference(&self, data: &Json) -> (r: Result<Reference, ApiError>)
        ensures
            reference_outcome(r) == Ok::<ReferenceView, ApiErrorView>(parsed_reference(*data)),
    {
        let inner = data.get("reference");
        let title = title_of(text_of(member_of(member_of(inner, "title"), "title")));
        let authors = collect_names(member_of(inner, "authors"), "full_name");
        let arxiv_id = owned_text(text_of(member_of(inner, "arxiv_eprint")));
        let inspire_id = match text_of(member_of(data.get("record"), "$ref")) {
            Some(url) => Some(cut_after_last(url.as_str(), '/')),
            None => None,
        };
        let categories = collect_names(member_of(inner, "inspire_categories"), "term");
        let year = year_of(text_of(member_of(member_of(inner, "imprint"), "date")));
        Ok(Reference { title, authors, arxiv_id, inspire_id, categories, year })
    }

    /// The paper that a search answer names.
    pub fn paper_from_json(&self, arxiv_id: &str, json: &Json) -> (r: Result<Paper, ApiError>)
        ensures
            paper_outcome(r) == found_paper(arxiv_id@, *json),
    {
        match array_of(member_of(json.get("hits"), "hits")) {
            None => Err(ApiError::InvalidFormat),
            Some(hits) => {
                if hits.len() == 0 {
                    Err(ApiError::NotFound { arxiv_id: arxiv_id.to_owned() })
                } else {
                    match hits[0].get("metadata") {
                        Some(record) => self.parse_paper(record),
                        None => {
                            let nothing = Json::Null;
                            self.parse_paper(&nothing)
                        },
                    }
                }
            },
        }
    }

    /// The references that a record answer lists, each entry read with
    /// `parse_reference`; an entry that it refuses is left out.
    pub fn references_from_json(&self, json: &Json) -> (r: Vec<Reference>)
        ensures
            reference_views(r@) == found_references(*json),
    {
        let mut out: Vec<Reference> = Vec::new();
        match array_of(member_of(json.get("metadata"), "references")) {
            None => {
                assert(reference_views(out@) =~= Seq::<ReferenceView>::empty());
            },
            Some(items) => {
                let n = items.len();
                let mut i: usize = 0;
                while i < n
                    invariant
                        n == items.len(),
                        i <= n,
                        out@.len() == i,
                        forall|j: int|
                            0 <= j < i ==> (#[trigger] out@[j])@ == parsed_reference(items@[j]),
                    decreases n - i,
                {
                    match self.parse_reference(&items[i]) {
                        Ok(reference) => {
                            out.push(reference);
                        },
                        Err(_) => {},
                    }
                    i = i + 1;
                }
                assert(reference_views(out@) =~= parsed_references(items@));
            },
        }
        out
    }

    /// Reads the answer to a search for `arxiv_id`: the status is looked at first,
    /// then the body is decoded, then the first hit is read.
    pub fn paper_from_response(&self, arxiv_id: &str, status: u16, body: &[u8]) -> (r: Result<
        Paper,
        ApiError,
    >)
        ensures
            paper_outcome(r) == paper_answer(arxiv_id@, status, decoded(body@)),
    {
        if !status_is_success(status) {
            return Err(ApiError::FetchFailed { status });
        }
        match decode(body) {
            None => Err(ApiError::InvalidBody),
            Some(json) => self.paper_from_json(arxiv_id, &json),
        }
    }

    /// Reads the answer to a request for a record: the status is looked at first,
    /// then the body is decoded, then the reference list is read.
    pub fn references_from_response(&self, status: u16, body: &[u8]) -> (r: Result<
        Vec<Reference>,
        ApiError,
    >)
        ensures
            references_outcome(r) == references_answer(status, decoded(body@)),
    {
        if !status_is_success(status) {
            return Err(ApiError::DetailsFetchFailed { status });
        }
        match decode(body) {
            None => Err(ApiError::InvalidBody),
            Some(json) => Ok(self.references_from_json(&json)),
        }
    }
}

} // verus!
