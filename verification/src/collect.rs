//! Collection of records from fetched result pages. The unverified binary
//! fetches one page body per page index (a fetch that fails at the transport
//! level, or whose body cannot be read as text, hands over no body); this
//! module extracts the records and accumulates them in page order, then in
//! document order within a page. A page without a body contributes no
//! records and raises no error.

use vstd::prelude::*;
use crate::record::{filled, record_from_entry, RawEntry, RawFields, Record, RecordModel};
use crate::urls::{page_url, request_url};

verus! {

/// What a scan of a result page's markup finds: one entry per result
/// container, in document order, each with the first title text, the first
/// authors text, and the first anchor's `href` found in the container's
/// subtree. The outcome depends on the markup alone.
pub uninterp spec fn page_entries(html: Seq<char>) -> Seq<RawFields>;

/// Relies on scraper's `Html::parse_document`, `select`, `text` and `attr`:
/// one entry per `div.gs_ri` container in document order, with the first
/// `h3.gs_rt` text, the first `div.gs_a` text, and the first anchor `href`
/// of its subtree. The four fixed selectors are valid, so the selector
/// parses cannot fail.
#[verifier::external_body]
fn extract_entries(html: &str) -> (r: Vec<RawEntry>)
    ensures
        r@.len() == page_entries(html@).len(),
        forall|i: int| 0 <= i < r@.len() ==> (#[trigger] r@[i])@ == page_entries(html@)[i],
{
    let doc = scraper::Html::parse_document(html);
    let entry = scraper::Selector::parse("div.gs_ri").unwrap();
    let title = scraper::Selector::parse("h3.gs_rt").unwrap();
    let authors = scraper::Selector::parse("div.gs_a").unwrap();
    let anchor = scraper::Selector::parse("a").unwrap();
    doc.select(&entry).map(
        |e| RawEntry {
            title: e.select(&title).next().map(|n| n.text().collect()),
            authors: e.select(&authors).next().map(|n| n.text().collect()),
            link: e.select(&anchor).next().and_then(|n| n.attr("href")).map(str::to_owned),
        },
    ).collect()
}

/// The records of one result page: its entries with the fallback texts
/// filled in.
pub open spec fn page_records(html: Seq<char>) -> Seq<RecordModel> {
    page_entries(html).map_values(|e: RawFields| filled(e))
}

/// The records a page contributes: none when it handed over no body.
pub open spec fn body_records(body: Option<Seq<char>>) -> Seq<RecordModel> {
    match body {
        Some(h) => page_records(h),
        None => Seq::empty(),
    }
}

/// The records of a whole run: each page's records, in page order.
pub open spec fn collected(bodies: Seq<Option<Seq<char>>>) -> Seq<RecordModel>
    decreases bodies.len(),
{
    if bodies.len() == 0 {
        Seq::empty()
    } else {
        body_records(bodies[0]) + collected(bodies.skip(1))
    }
}

/// Collection distributes over concatenation of page runs.
pub proof fn lemma_collected_append(a: Seq<Option<Seq<char>>>, b: Seq<Option<Seq<char>>>)
    ensures
        collected(a + b) == collected(a) + collected(b),
    decreases a.len(),
{
    if a.len() == 0 {
        assert(a + b =~= b);
        assert(collected(a) + collected(b) =~= collected(b));
    } else {
        assert((a + b).skip(1) =~= a.skip(1) + b);
        lemma_collected_append(a.skip(1), b);
        assert(collected(a + b) =~= collected(a) + collected(b));
    }
}

/// A page that handed over no body contributes nothing: the run's records
/// are exactly those of the pages before it followed by those of the pages
/// after it.
pub proof fn lemma_failed_page(bodies: Seq<Option<Seq<char>>>, k: int)
    requires
        0 <= k < bodies.len(),
        bodies[k] is None,
    ensures
        collected(bodies) == collected(bodies.take(k)) + collected(bodies.skip(k + 1)),
{
    let failed = seq![bodies[k]];
    assert(bodies =~= bodies.take(k) + failed + bodies.skip(k + 1));
    lemma_collected_append(bodies.take(k) + failed, bodies.skip(k + 1));
    lemma_collected_append(bodies.take(k), failed);
    assert(failed.len() == 1);
    assert(failed[0] == bodies[k]);
    assert(collected(failed) == body_records(failed[0]) + collected(failed.skip(1)));
    assert(failed.skip(1) =~= Seq::<Option<Seq<char>>>::empty());
    assert(body_records(failed[0]) + collected(failed.skip(1)) =~= Seq::<RecordModel>::empty());
    assert(collected(bodies.take(k)) + collected(failed) =~= collected(bodies.take(k)));
}

/// Extract the records of one result page, in document order.
pub fn parse_page(html: &str) -> (r: Vec<Record>)
    ensures
        r@.len() == page_records(html@).len(),
        forall|i: int| 0 <= i < r@.len() ==> (#[trigger] r@[i])@ == page_records(html@)[i],
{
    let entries = extract_entries(html);
    let mut out: Vec<Record> = Vec::new();
    let mut i: usize = 0;
    while i < entries.len()
        invariant
            i <= entries.len(),
            entries@.len() == page_entries(html@).len(),
            forall|j: int|
                0 <= j < entries@.len() ==> (#[trigger] entries@[j])@ == page_entries(html@)[j],
            out@.len() == i,
            forall|j: int| 0 <= j < i ==> (#[trigger] out@[j])@ == page_records(html@)[j],
        decreases entries.len() - i,
    {
        let rec = record_from_entry(&entries[i]);
        out.push(rec);
        i = i + 1;
    }
    out
}

/// The URLs of a whole run, one per page: page `i` asks for the result
/// offset `10 * i` of the percent-encoded query.
pub fn page_urls(query: &Vec<u8>, pages: u32) -> (r: Vec<Vec<u8>>)
    ensures
        r@.len() == pages,
        forall|i: int| 0 <= i < pages ==> (#[trigger] r@[i])@ == request_url(query@, i as nat),
{
    let mut out: Vec<Vec<u8>> = Vec::new();
    let mut page: u32 = 0;
    while page < pages
        invariant
            page <= pages,
            out@.len() == page,
            forall|i: int| 0 <= i < page ==> (#[trigger] out@[i])@ == request_url(query@, i as nat),
        decreases pages - page,
    {
        let url = page_url(query, page);
        out.push(url);
        page = page + 1;
    }
    out
}

/// Accumulate the records of a whole run from the fetched page bodies, in
/// page order then document order; a page that handed over no body
/// contributes no records and leaves the others untouched.
pub fn collect_bodies(bodies: &Vec<Option<String>>) -> (r: Vec<Record>)
    ensures
        r@.len() == collected(bodies.deep_view()).len(),
        forall|i: int|
            0 <= i < r@.len() ==> (#[trigger] r@[i])@ == collected(bodies.deep_view())[i],
{
    let ghost bs = bodies.deep_view();
    let mut out: Vec<Record> = Vec::new();
    let mut p: usize = 0;
    proof {
        assert(bs.take(0) =~= Seq::<Option<Seq<char>>>::empty());
    }
    while p < bodies.len()
        invariant
            p <= bodies.len(),
            bs == bodies.deep_view(),
            bs.len() == bodies@.len(),
            forall|j: int| 0 <= j < bs.len() ==> bs[j] == (#[trigger] bodies@[j]).deep_view(),
            out@.len() == collected(bs.take(p as int)).len(),
            forall|i: int|
                0 <= i < out@.len() ==> (#[trigger] out@[i])@ == collected(bs.take(p as int))[i],
        decreases bodies.len() - p,
    {
        proof {
            assert(bs.take(p as int) + seq![bs[p as int]] =~= bs.take(p + 1));
            lemma_collected_append(bs.take(p as int), seq![bs[p as int]]);
            assert(seq![bs[p as int]].len() == 1);
            assert(seq![bs[p as int]][0] == bs[p as int]);
            assert(collected(seq![bs[p as int]]) == body_records(seq![bs[p as int]][0])
                + collected(seq![bs[p as int]].skip(1)));
            assert(seq![bs[p as int]].skip(1) =~= Seq::<Option<Seq<char>>>::empty());
            assert(body_records(bs[p as int]) + Seq::<RecordModel>::empty() =~= body_records(
                bs[p as int],
            ));
            assert(collected(seq![bs[p as int]]) =~= body_records(bs[p as int]));
        }
        match &bodies[p] {
            Some(body) => {
                let mut page_recs = parse_page(body.as_str());
                out.append(&mut page_recs);
            },
            None => {},
        }
        p = p + 1;
    }
    proof {
        assert(bs.take(bs.len() as int) =~= bs);
    }
    out
}

} // verus!
