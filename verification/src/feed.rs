use vstd::prelude::*;

use crate::content::Content;
use crate::errors::Error;
use crate::text::{html_stripped, remove_html_tags};

verus! {

// ---------------------------------------------------------------------------
// Data model
// ---------------------------------------------------------------------------

/// One feed item as the parser hands it over: an unordered bag of optional
/// fields, read-only input to the engine.
#[derive(Debug)]
pub struct RawItem {
    pub title: Option<String>,
    pub link: Option<String>,
    pub description: Option<String>,
    /// The publish date as RFC 2822 text.
    pub pub_date: Option<String>,
    /// The url attribute of the first `media:content` extension element.
    pub media_url: Option<String>,
}

/// A raw item paired with its parsed publish timestamp.
#[derive(Debug)]
pub struct DatedItem {
    pub date: u64,
    pub item: RawItem,
}

/// A tracked feed: its URL and the watermark, the publish timestamp of the
/// most recent item already seen.  An unset watermark means every item
/// currently in the feed counts as new.
#[derive(Debug, Clone)]
pub struct Feed {
    pub url: String,
    pub last_post: Option<u64>,
}

// ---------------------------------------------------------------------------
// Outside parsers, behind trusted contracts
// ---------------------------------------------------------------------------

/// What the outside RFC 2822 parser yields for a date text: the seconds
/// since the Unix epoch wrapped into `u64`, or nothing when the text is not
/// a valid RFC 2822 date.
pub uninterp spec fn rfc2822_epoch(s: Seq<char>) -> Option<u64>;

/// Relies on chrono's `DateTime::parse_from_rfc2822` and `timestamp`: the
/// outcome depends on the date text alone.
#[verifier::external_body]
fn parse_rfc2822_epoch(s: &str) -> (r: Option<u64>)
    ensures
        r == rfc2822_epoch(s@),
{
    match chrono::DateTime::parse_from_rfc2822(s) {
        Ok(d) => Some(d.timestamp() as u64),
        Err(_) => None,
    }
}

/// What percent-decoding yields for a link: the decoded text, or nothing
/// when the decoded bytes are not valid UTF-8.
pub uninterp spec fn percent_decoded(s: Seq<char>) -> Option<Seq<char>>;

/// Relies on urlencoding's `decode`: the outcome depends on the text alone.
#[verifier::external_body]
fn percent_decode(s: &str) -> (r: Option<String>)
    ensures
        r is Some <==> percent_decoded(s@) is Some,
        r is Some ==> r->0@ == percent_decoded(s@)->0,
{
    match urlencoding::decode(s) {
        Ok(c) => Some(c.into_owned()),
        Err(_) => None,
    }
}

/// What the outside feed parser yields for a downloaded body: the parsed
/// channel's items in feed order, each reduced to its plain fields, or
/// nothing when the body is not a parsable feed.
pub uninterp spec fn feed_items_of(s: Seq<char>) -> Option<Seq<RawItem>>;

/// Relies on the rss crate's `Channel` parser (`str::parse::<Channel>`):
/// the outcome depends on the body text alone.  Each parsed item's title,
/// link, description and publish date are moved over unchanged, together
/// with the url attribute of the item's first `media:content` extension
/// element; a parse failure is returned as the parser's message.
#[verifier::external_body]
fn parse_feed_items(body: &str) -> (r: Result<Vec<RawItem>, String>)
    ensures
        r matches Ok(v) ==> feed_items_of(body@) matches Some(s) && v@ == s,
        r matches Err(_) ==> feed_items_of(body@) is None,
{
    match body.parse::<rss::Channel>() {
        Ok(ch) => Ok(ch.items.into_iter().map(|it| RawItem {
            title: it.title, link: it.link, description: it.description, pub_date: it.pub_date,
            media_url: it.extensions.get("media").and_then(|m| m.get("content"))
                .and_then(|cs| cs.first()).and_then(|c| c.attrs.get("url").cloned()),
        }).collect()),
        Err(e) => Err(format!("{e}")),
    }
}

/// Relies on chrono's `Utc::now` for the current time as seconds since the
/// Unix epoch; nothing is assumed of the value.
#[verifier::external_body]
fn unix_now() -> u64 {
    chrono::Utc::now().timestamp() as u64
}

// ---------------------------------------------------------------------------
// The link as it is published
// ---------------------------------------------------------------------------

/// The link of a published item: the percent-decoded text where decoding
/// succeeds, and the link unchanged where it does not.
pub open spec fn decoded_link(s: Seq<char>) -> Seq<char> {
    match percent_decoded(s) {
        Some(d) => d,
        None => s,
    }
}

// ---------------------------------------------------------------------------
// Processing order
// ---------------------------------------------------------------------------

/// Feed items arrive newest-first by convention; the engine processes them
/// oldest-first.
pub fn reverse_items(items: Vec<RawItem>) -> (r: Vec<RawItem>)
    ensures
        r@ == items@.reverse(),
{
    let mut v = items;
    let ghost orig = v@;
    let mut out: Vec<RawItem> = Vec::new();
    proof {
        assert(orig.take(orig.len() as int) =~= orig);
    }
    while v.len() > 0
        invariant
            v@.len() <= orig.len(),
            v@ == orig.take(v@.len() as int),
            out@.len() == orig.len() - v@.len(),
            forall|i: int| 0 <= i < out@.len() ==> #[trigger] out@[i] == orig[orig.len() - 1 - i],
        decreases v@.len(),
    {
        let ghost n = v@.len() as int;
        let x = v.pop().unwrap();
        proof {
            assert(v@ =~= orig.take(n - 1));
        }
        out.push(x);
    }
    proof {
        assert(out@ =~= orig.reverse());
    }
    out
}

// ---------------------------------------------------------------------------
// Date validation
// ---------------------------------------------------------------------------

/// Whether an item carries a parsable publish date.
pub open spec fn item_date_ok(it: RawItem) -> bool {
    it.pub_date is Some && rfc2822_epoch(it.pub_date->0@) is Some
}

/// Whether every item of the sequence carries a parsable publish date.
pub open spec fn all_dated(items: Seq<RawItem>) -> bool {
    forall|i: int| 0 <= i < items.len() ==> item_date_ok(#[trigger] items[i])
}

/// The error owed for the first item without a usable date: a missing date
/// and an unparsable date are reported apart, each naming the feed URL.
pub open spec fn date_error(it: RawItem, url: Seq<char>, e: Error) -> bool {
    if it.pub_date is None {
        e matches Error::NoPublishDate(u) && u@ == url
    } else {
        rfc2822_epoch(it.pub_date->0@) is None && (e matches Error::InvalidPublishDate(u) && u@
            == url)
    }
}

/// How a date-validation pass fails: at the first item whose date is
/// missing or unparsable, with the error owed for it.
pub open spec fn date_check_failure(items: Seq<RawItem>, url: Seq<char>, e: Error) -> bool {
    exists|k: int|
        0 <= k < items.len() && (forall|j: int|
            0 <= j < k ==> item_date_ok(#[trigger] items[j])) && !item_date_ok(
            #[trigger] items[k],
        ) && date_error(items[k], url, e)
}

/// The items paired with their parsed dates, meaningful when `all_dated`
/// holds of the sequence.
pub open spec fn dated_of(items: Seq<RawItem>) -> Seq<DatedItem> {
    Seq::new(
        items.len(),
        |i: int| DatedItem { date: rfc2822_epoch(items[i].pub_date->0@)->0, item: items[i] },
    )
}

/// Parses the publish date of every item, in order.  The whole pass fails
/// on the first item whose date is missing or unparsable: date validation is
/// owed for all items, also for items that a later pass will drop as stale.
pub fn date_items(items: Vec<RawItem>, url: &String) -> (r: Result<Vec<DatedItem>, Error>)
    ensures
        match r {
            Ok(d) => all_dated(items@) && d@ == dated_of(items@),
            Err(e) => !all_dated(items@) && date_check_failure(items@, url@, e),
        },
{
    let mut v = items;
    let ghost orig = v@;
    let mut out: Vec<DatedItem> = Vec::new();
    proof {
        assert(orig.skip(0) =~= orig);
    }
    while v.len() > 0
        invariant
            orig == items@,
            out@.len() + v@.len() == orig.len(),
            v@ == orig.skip(out@.len() as int),
            forall|j: int|
                0 <= j < out@.len() ==> item_date_ok(#[trigger] orig[j]) && out@[j]
                    == dated_of(orig)[j],
        decreases v@.len(),
    {
        let ghost n = out@.len() as int;
        let it = v.remove(0);
        proof {
            assert(it == orig[n]);
            assert(v@ =~= orig.skip(n + 1));
        }
        let date = match &it.pub_date {
            None => {
                let e = Error::NoPublishDate(url.clone());
                proof {
                    assert(!item_date_ok(items@[n]));
                    assert((forall|j: int| 0 <= j < n ==> item_date_ok(#[trigger] items@[j]))
                        && date_error(items@[n], url@, e));
                }
                return Err(e);
            },
            Some(ds) => {
                match parse_rfc2822_epoch(ds.as_str()) {
                    None => {
                        let e = Error::InvalidPublishDate(url.clone());
                        proof {
                            assert(!item_date_ok(items@[n]));
                            assert((forall|j: int|
                                0 <= j < n ==> item_date_ok(#[trigger] items@[j])) && date_error(
                                items@[n],
                                url@,
                                e,
                            ));
                        }
                        return Err(e);
                    },
                    Some(ts) => ts,
                }
            },
        };
        out.push(DatedItem { date, item: it });
    }
    proof {
        assert(out@ =~= dated_of(orig));
    }
    Ok(out)
}

// ---------------------------------------------------------------------------
// The watermark fold: which items are new, and where the watermark moves
// ---------------------------------------------------------------------------

/// Whether an item dated `date` counts as new against the watermark: every
/// item is new against an unset watermark, and otherwise exactly the items
/// dated strictly later than it.  An item dated exactly at the watermark is
/// not re-emitted.
pub open spec fn passes(wm: Option<u64>, date: u64) -> bool {
    wm is None || date > wm->0
}

/// The watermark after one check over `items` in processing order: each item
/// that passes the filter moves the watermark to its own date.
pub open spec fn advanced_mark(items: Seq<DatedItem>, wm: Option<u64>) -> Option<u64>
    decreases items.len(),
{
    if items.len() == 0 {
        wm
    } else {
        advanced_mark(
            items.skip(1),
            if passes(wm, items[0].date) {
                Some(items[0].date)
            } else {
                wm
            },
        )
    }
}

/// The items one check emits, in processing order: each item is filtered
/// against the watermark as moved by the items before it.
pub open spec fn fresh_items(items: Seq<DatedItem>, wm: Option<u64>) -> Seq<DatedItem>
    decreases items.len(),
{
    if items.len() == 0 {
        Seq::empty()
    } else if passes(wm, items[0].date) {
        seq![items[0]] + fresh_items(items.skip(1), Some(items[0].date))
    } else {
        fresh_items(items.skip(1), wm)
    }
}

/// One check's filtering pass as a pure function: the new watermark and the
/// items that are new against `watermark`, in processing order.
pub fn advance(items: Vec<DatedItem>, watermark: Option<u64>) -> (r: (Option<u64>, Vec<DatedItem>))
    ensures
        r.0 == advanced_mark(items@, watermark),
        r.1@ == fresh_items(items@, watermark),
{
    let mut v = items;
    let ghost orig = v@;
    let mut wm = watermark;
    let mut out: Vec<DatedItem> = Vec::new();
    proof {
        assert(out@ + fresh_items(orig, watermark) =~= fresh_items(orig, watermark));
    }
    while v.len() > 0
        invariant
            advanced_mark(orig, watermark) == advanced_mark(v@, wm),
            fresh_items(orig, watermark) == out@ + fresh_items(v@, wm),
        decreases v@.len(),
    {
        let ghost oldv = v@;
        let ghost pre = out@;
        let ghost wm0 = wm;
        let it = v.remove(0);
        proof {
            assert(it == oldv[0]);
            assert(v@ =~= oldv.skip(1));
        }
        let pass = match wm {
            None => true,
            Some(w) => it.date > w,
        };
        proof {
            assert(pass == passes(wm0, oldv[0].date));
        }
        if pass {
            wm = Some(it.date);
            out.push(it);
            proof {
                assert(fresh_items(oldv, wm0) == seq![oldv[0]] + fresh_items(v@, wm));
                assert(pre + (seq![oldv[0]] + fresh_items(v@, wm)) =~= out@ + fresh_items(v@, wm));
            }
        }
    }
    proof {
        assert(out@ + fresh_items(v@, wm) =~= out@);
    }
    (wm, out)
}

/// If the watermark is set, a check never moves it backwards, and never
/// unsets it.
pub proof fn lemma_mark_monotone(items: Seq<DatedItem>, wm: Option<u64>)
    ensures
        wm is Some ==> advanced_mark(items, wm) is Some && advanced_mark(items, wm)->0 >= wm->0,
    decreases items.len(),
{
    if items.len() > 0 {
        lemma_mark_monotone(
            items.skip(1),
            if passes(wm, items[0].date) {
                Some(items[0].date)
            } else {
                wm
            },
        );
    }
}

// ---------------------------------------------------------------------------
// Laws of the watermark fold
// ---------------------------------------------------------------------------

/// Publish dates strictly increasing in processing order, the shape a
/// conventional newest-first feed has after reversal.
pub open spec fn strictly_increasing(items: Seq<DatedItem>) -> bool {
    forall|i: int, j: int| 0 <= i < j < items.len() ==> items[i].date < items[j].date
}

proof fn lemma_all_pass(items: Seq<DatedItem>, wm: Option<u64>)
    requires
        strictly_increasing(items),
        forall|i: int| 0 <= i < items.len() ==> passes(wm, #[trigger] items[i].date),
    ensures
        fresh_items(items, wm) == items,
        items.len() > 0 ==> advanced_mark(items, wm) == Some(items.last().date),
        items.len() == 0 ==> advanced_mark(items, wm) == wm,
    decreases items.len(),
{
    if items.len() == 0 {
        assert(fresh_items(items, wm) =~= items);
    } else {
        let w2 = Some(items[0].date);
        assert forall|i: int| 0 <= i < items.skip(1).len() implies passes(
            w2,
            #[trigger] items.skip(1)[i].date,
        ) by {
            assert(items.skip(1)[i] == items[i + 1]);
        }
        lemma_all_pass(items.skip(1), w2);
        assert(fresh_items(items, wm) =~= items);
        if items.len() > 1 {
            assert(items.skip(1).last() == items.last());
        }
    }
}

/// With an unset watermark, a check over items with strictly increasing
/// dates emits every item, in that order, and leaves the watermark at the
/// last item's date.
pub proof fn lemma_first_check_emits_all(items: Seq<DatedItem>)
    requires
        strictly_increasing(items),
    ensures
        fresh_items(items, None) == items,
        items.len() > 0 ==> advanced_mark(items, None) == Some(items.last().date),
{
    lemma_all_pass(items, None);
}

/// After a check, the watermark dominates every processed item: no item of
/// the same sequence still passes the filter.
proof fn lemma_mark_dominates(items: Seq<DatedItem>, wm: Option<u64>)
    ensures
        forall|i: int|
            0 <= i < items.len() ==> !passes(advanced_mark(items, wm), #[trigger] items[i].date),
    decreases items.len(),
{
    if items.len() > 0 {
        let w2 = if passes(wm, items[0].date) {
            Some(items[0].date)
        } else {
            wm
        };
        lemma_mark_monotone(items.skip(1), w2);
        lemma_mark_dominates(items.skip(1), w2);
        assert forall|i: int|
            0 <= i < items.len() implies !passes(
            advanced_mark(items, wm),
            #[trigger] items[i].date,
        ) by {
            if i > 0 {
                assert(items.skip(1)[i - 1] == items[i]);
            }
        }
    }
}

proof fn lemma_no_pass_no_change(items: Seq<DatedItem>, wm: Option<u64>)
    requires
        forall|i: int| 0 <= i < items.len() ==> !passes(wm, #[trigger] items[i].date),
    ensures
        fresh_items(items, wm).len() == 0,
        advanced_mark(items, wm) == wm,
    decreases items.len(),
{
    if items.len() > 0 {
        assert forall|i: int|
            0 <= i < items.skip(1).len() implies !passes(
            wm,
            #[trigger] items.skip(1)[i].date,
        ) by {
            assert(items.skip(1)[i] == items[i + 1]);
        }
        lemma_no_pass_no_change(items.skip(1), wm);
    }
}

/// A second check straight after, over the same items, emits nothing and
/// leaves the watermark where the first check put it.
pub proof fn lemma_second_check_empty(items: Seq<DatedItem>, wm: Option<u64>)
    ensures
        fresh_items(items, advanced_mark(items, wm)).len() == 0,
        advanced_mark(items, advanced_mark(items, wm)) == advanced_mark(items, wm),
{
    lemma_mark_dominates(items, wm);
    lemma_no_pass_no_change(items, advanced_mark(items, wm));
}

/// Every emitted item is one of the processed items.
proof fn lemma_fresh_subset(items: Seq<DatedItem>, wm: Option<u64>)
    ensures
        forall|x: DatedItem| fresh_items(items, wm).contains(x) ==> items.contains(x),
    decreases items.len(),
{
    if items.len() > 0 {
        let w2 = if passes(wm, items[0].date) {
            Some(items[0].date)
        } else {
            wm
        };
        lemma_fresh_subset(items.skip(1), w2);
        assert forall|x: DatedItem| fresh_items(items, wm).contains(x) implies items.contains(
            x,
        ) by {
            if x == items[0] {
                assert(items.contains(x)) by {
                    assert(items[0] == x);
                }
            } else {
                assert(fresh_items(items.skip(1), w2).contains(x) ==> items.skip(1).contains(x));
                if items.skip(1).contains(x) {
                    let j = choose|j: int|
                        0 <= j < items.skip(1).len() && items.skip(1)[j] == x;
                    assert(items[j + 1] == x);
                }
            }
        }
    }
}

/// Half of the boundary law, with nothing asked of the order: whatever the
/// processing order, an item dated at or before the watermark, the boundary
/// included, is never emitted.
pub proof fn lemma_no_stale_emitted(items: Seq<DatedItem>, w: u64)
    ensures
        forall|x: DatedItem| fresh_items(items, Some(w)).contains(x) ==> x.date > w,
    decreases items.len(),
{
    if items.len() > 0 {
        if passes(Some(w), items[0].date) {
            lemma_no_stale_emitted(items.skip(1), items[0].date);
            assert forall|x: DatedItem|
                fresh_items(items, Some(w)).contains(x) implies x.date > w by {
                let f = fresh_items(items, Some(w));
                let i = choose|i: int| 0 <= i < f.len() && f[i] == x;
                if i == 0 {
                    assert(x == items[0]);
                } else {
                    let tail = fresh_items(items.skip(1), Some(items[0].date));
                    assert(tail[i - 1] == x);
                    assert(tail.contains(x));
                }
            }
        } else {
            lemma_no_stale_emitted(items.skip(1), w);
            assert(fresh_items(items, Some(w)) == fresh_items(items.skip(1), Some(w)));
        }
    } else {
        assert forall|x: DatedItem|
            fresh_items(items, Some(w)).contains(x) implies x.date > w by {
            assert(fresh_items(items, Some(w)).len() == 0);
        }
    }
}

/// The boundary law: against a set watermark, over items with strictly
/// increasing dates, an item is emitted exactly when its date is strictly
/// greater than the watermark; an item dated at or before the watermark,
/// the boundary included, is never emitted.
pub proof fn lemma_watermark_boundary(items: Seq<DatedItem>, w: u64)
    requires
        strictly_increasing(items),
    ensures
        forall|i: int|
            0 <= i < items.len() ==> (items[i].date > w <==> fresh_items(items, Some(w)).contains(
                #[trigger] items[i],
            )),
    decreases items.len(),
{
    if items.len() > 0 {
        if items[0].date > w {
            assert forall|i: int| 0 <= i < items.len() implies passes(
                Some(w),
                #[trigger] items[i].date,
            ) by {
                if i > 0 {
                    assert(items[0].date < items[i].date);
                }
            }
            lemma_all_pass(items, Some(w));
            assert forall|i: int| 0 <= i < items.len() implies fresh_items(
                items,
                Some(w),
            ).contains(#[trigger] items[i]) by {
                assert(fresh_items(items, Some(w))[i] == items[i]);
            }
        } else {
            assert forall|i: int, j: int|
                0 <= i < j < items.skip(1).len() implies items.skip(1)[i].date < items.skip(
                1,
            )[j].date by {
                assert(items.skip(1)[i] == items[i + 1]);
                assert(items.skip(1)[j] == items[j + 1]);
            }
            lemma_watermark_boundary(items.skip(1), w);
            assert(fresh_items(items, Some(w)) == fresh_items(items.skip(1), Some(w)));
            assert forall|i: int|
                0 <= i < items.len() implies (items[i].date > w <==> fresh_items(
                items,
                Some(w),
            ).contains(#[trigger] items[i])) by {
                if i == 0 {
                    if fresh_items(items, Some(w)).contains(items[0]) {
                        lemma_fresh_subset(items.skip(1), Some(w));
                        assert(items.skip(1).contains(items[0]));
                        let j = choose|j: int|
                            0 <= j < items.skip(1).len() && items.skip(1)[j] == items[0];
                        assert(items[j + 1] == items[0]);
                        assert(items[0].date < items[j + 1].date);
                    }
                } else {
                    assert(items.skip(1)[i - 1] == items[i]);
                }
            }
        }
    }
}

// ---------------------------------------------------------------------------
// Converting the surviving items to publish-ready content
// ---------------------------------------------------------------------------

/// Whether an item carries the three required fields.
pub open spec fn convertible(it: RawItem) -> bool {
    it.title is Some && it.link is Some && it.description is Some
}

/// What a content value built from an item holds: the title unchanged, the
/// link percent-decoded, the description stripped of markup, and the media
/// URL passed through.
pub open spec fn content_matches(c: Content, it: RawItem) -> bool {
    &&& c.title == it.title->0
    &&& c.link@ == decoded_link(it.link->0@)
    &&& c.description@ == html_stripped(it.description->0@)
    &&& c.image_url == it.media_url
}

/// The error owed for the first item missing a required field; the fields
/// are demanded in the order title, link, description, and each error names
/// the feed URL.
pub open spec fn field_error(it: RawItem, url: Seq<char>, e: Error) -> bool {
    if it.title is None {
        e matches Error::NoTitle(u) && u@ == url
    } else if it.link is None {
        e matches Error::NoLink(u) && u@ == url
    } else {
        it.description is None && (e matches Error::NoDescription(u) && u@ == url)
    }
}

/// How a conversion pass fails: at the first unconvertible item, with the
/// error owed for it.
pub open spec fn field_check_failure(items: Seq<DatedItem>, url: Seq<char>, e: Error) -> bool {
    exists|k: int|
        0 <= k < items.len() && (forall|j: int|
            0 <= j < k ==> convertible(#[trigger] items[j].item)) && !convertible(
            #[trigger] items[k].item,
        ) && field_error(items[k].item, url, e)
}

/// Turns every surviving item into publish-ready content, in order, failing
/// at the first item that misses a required field.
pub fn convert_items(items: Vec<DatedItem>, url: &String) -> (r: Result<Vec<Content>, Error>)
    ensures
        match r {
            Ok(cs) => cs@.len() == items@.len() && (forall|i: int|
                0 <= i < items@.len() ==> convertible(#[trigger] items@[i].item) && content_matches(
                    cs@[i],
                    items@[i].item,
                )),
            Err(e) => field_check_failure(items@, url@, e),
        },
{
    let mut v = items;
    let ghost orig = v@;
    let mut out: Vec<Content> = Vec::new();
    proof {
        assert(orig.skip(0) =~= orig);
    }
    while v.len() > 0
        invariant
            orig == items@,
            out@.len() + v@.len() == orig.len(),
            v@ == orig.skip(out@.len() as int),
            forall|j: int|
                0 <= j < out@.len() ==> convertible(#[trigger] orig[j].item) && content_matches(
                    out@[j],
                    orig[j].item,
                ),
        decreases v@.len(),
    {
        let ghost n = out@.len() as int;
        let entry = v.remove(0);
        proof {
            assert(entry == orig[n]);
            assert(v@ =~= orig.skip(n + 1));
        }
        let it = entry.item;
        let title = match it.title {
            Some(t) => t,
            None => {
                let e = Error::NoTitle(url.clone());
                proof {
                    assert(!convertible(items@[n].item) && field_error(items@[n].item, url@, e));
                }
                return Err(e);
            },
        };
        let raw_link = match it.link {
            Some(l) => l,
            None => {
                let e = Error::NoLink(url.clone());
                proof {
                    assert(!convertible(items@[n].item) && field_error(items@[n].item, url@, e));
                }
                return Err(e);
            },
        };
        let raw_description = match it.description {
            Some(d) => d,
            None => {
                let e = Error::NoDescription(url.clone());
                proof {
                    assert(!convertible(items@[n].item) && field_error(items@[n].item, url@, e));
                }
                return Err(e);
            },
        };
        let link = match percent_decode(raw_link.as_str()) {
            Some(d) => d,
            None => raw_link,
        };
        let description = remove_html_tags(raw_description.as_str());
        out.push(Content::new(title, link, description, it.media_url));
    }
    Ok(out)
}

// ---------------------------------------------------------------------------
// The tracked feed
// ---------------------------------------------------------------------------

impl Feed {
    /// A tracker for `url`.  In only-new mode the watermark starts at the
    /// present moment, so that only items published after startup are ever
    /// emitted; otherwise it starts unset and the first check emits
    /// everything the feed holds.
    pub fn new(url: String, only_new: bool) -> (f: Feed)
        ensures
            f.url == url,
            f.last_post is Some <==> only_new,
    {
        Feed {
            url,
            last_post: if only_new {
                Some(unix_now())
            } else {
                None
            },
        }
    }

    /// One check over already-parsed items, exactly as they came from the
    /// parser (conventionally newest-first): the items are put into
    /// oldest-first processing order, every item's publish date is
    /// validated, the items newer than the watermark are selected and the
    /// watermark advanced, and the selected items are converted to content.
    /// The watermark moves if and only if date validation succeeded, also
    /// when a later item then misses a required field.
    pub fn check_items(&mut self, items: Vec<RawItem>) -> (r: Result<Vec<Content>, Error>)
        ensures
            final (self).url == old(self).url,
            !all_dated(items@.reverse()) ==> {
                &&& final (self).last_post == old(self).last_post
                &&& r matches Err(e) && date_check_failure(items@.reverse(), old(self).url@, e)
            },
            all_dated(items@.reverse()) ==> {
                let kept = fresh_items(dated_of(items@.reverse()), old(self).last_post);
                &&& final (self).last_post == advanced_mark(
                    dated_of(items@.reverse()),
                    old(self).last_post,
                )
                &&& match r {
                    Ok(cs) => cs@.len() == kept.len() && (forall|i: int|
                        0 <= i < kept.len() ==> convertible(#[trigger] kept[i].item)
                            && content_matches(cs@[i], kept[i].item)),
                    Err(e) => field_check_failure(kept, old(self).url@, e),
                }
            },
    {
        let rev = reverse_items(items);
        let dated = match date_items(rev, &self.url) {
            Ok(d) => d,
            Err(e) => {
                return Err(e);
            },
        };
        let (wm2, kept) = advance(dated, self.last_post);
        self.last_post = wm2;
        convert_items(kept, &self.url)
    }

    /// One check over a downloaded feed body: the body is parsed by the
    /// outside parser and the items are handed to [`Feed::check_items`],
    /// whose whole outcome the contract carries over the named parse
    /// result.  A set watermark never moves backwards and never becomes
    /// unset, and a body that does not parse is reported and leaves it
    /// untouched.
    pub fn check_body(&mut self, body: &str) -> (r: Result<Vec<Content>, Error>)
        ensures
            final (self).url == old(self).url,
            old(self).last_post is Some ==> final (self).last_post is Some
                && final (self).last_post->0 >= old(self).last_post->0,
            r matches Err(Error::Rss(_)) ==> final (self).last_post == old(self).last_post,
            feed_items_of(body@) is None ==> (r matches Err(Error::Rss(_))
                && final (self).last_post == old(self).last_post),
            feed_items_of(body@) matches Some(items) ==> {
                let rev = items.reverse();
                &&& (!all_dated(rev) ==> final (self).last_post == old(self).last_post && (
                r matches Err(e) && date_check_failure(rev, old(self).url@, e)))
                &&& (all_dated(rev) ==> {
                    let kept = fresh_items(dated_of(rev), old(self).last_post);
                    &&& final (self).last_post == advanced_mark(dated_of(rev), old(self).last_post)
                    &&& match r {
                        Ok(cs) => cs@.len() == kept.len() && (forall|i: int|
                            0 <= i < kept.len() ==> convertible(#[trigger] kept[i].item)
                                && content_matches(cs@[i], kept[i].item)),
                        Err(e) => field_check_failure(kept, old(self).url@, e),
                    }
                })
            },
    {
        match parse_feed_items(body) {
            Err(detail) => Err(Error::Rss(detail)),
            Ok(items) => {
                let ghost itemseq = items@;
                let ghost wm0 = self.last_post;
                let r = self.check_items(items);
                proof {
                    if all_dated(itemseq.reverse()) {
                        lemma_mark_monotone(dated_of(itemseq.reverse()), wm0);
                    }
                }
                r
            },
        }
    }
}

} // verus!
