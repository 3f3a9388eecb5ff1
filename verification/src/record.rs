//! Citation records. One record is extracted per result container found in a
//! result page's markup; a field whose node is missing from the markup gets a
//! fixed fallback text, independently of the other fields.

use vstd::prelude::*;

verus! {

/// One extracted citation entry.
pub struct Record {
    pub title: String,
    pub authors: String,
    pub link: String,
}

/// The mathematical value of a `Record`: its three texts.
pub ghost struct RecordModel {
    pub title: Seq<char>,
    pub authors: Seq<char>,
    pub link: Seq<char>,
}

impl View for Record {
    type V = RecordModel;

    open spec fn view(&self) -> RecordModel {
        RecordModel { title: self.title@, authors: self.authors@, link: self.link@ }
    }
}

/// What a search of one result container's subtree found: the first title
/// node's text, the first authors node's text, and the first anchor's `href`
/// value, each absent when the subtree has no such node.
pub struct RawEntry {
    pub title: Option<String>,
    pub authors: Option<String>,
    pub link: Option<String>,
}

/// The mathematical value of a `RawEntry`: title, authors, link.
pub type RawFields = (Option<Seq<char>>, Option<Seq<char>>, Option<Seq<char>>);

impl View for RawEntry {
    type V = RawFields;

    open spec fn view(&self) -> RawFields {
        (
            match self.title {
                Some(t) => Some(t@),
                None => None,
            },
            match self.authors {
                Some(a) => Some(a@),
                None => None,
            },
            match self.link {
                Some(l) => Some(l@),
                None => None,
            },
        )
    }
}

/// A found text, or the fallback when the node was missing.
pub open spec fn text_or(found: Option<Seq<char>>, fallback: Seq<char>) -> Seq<char> {
    match found {
        Some(t) => t,
        None => fallback,
    }
}

/// The record made from one container's findings: each missing field falls
/// back to its own fixed text, independently of the others.
pub open spec fn filled(e: RawFields) -> RecordModel {
    RecordModel {
        title: text_or(e.0, "No title found"@),
        authors: text_or(e.1, "No authors info"@),
        link: text_or(e.2, "No link"@),
    }
}

/// The mathematical values of a sequence of records.
pub open spec fn models(rs: Seq<Record>) -> Seq<RecordModel> {
    rs.map_values(|r: Record| r@)
}

/// Build the record for one result container, applying the per-field
/// fallback texts.
pub fn record_from_entry(e: &RawEntry) -> (r: Record)
    ensures
        r@ == filled(e@),
{
    let title = match &e.title {
        Some(t) => t.clone(),
        None => "No title found".to_owned(),
    };
    let authors = match &e.authors {
        Some(a) => a.clone(),
        None => "No authors info".to_owned(),
    };
    let link = match &e.link {
        Some(l) => l.clone(),
        None => "No link".to_owned(),
    };
    Record { title, authors, link }
}

} // verus!
