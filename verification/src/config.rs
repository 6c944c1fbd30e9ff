use vstd::prelude::*;

use crate::errors::Error;
use crate::feed::Feed;

verus! {

/// The run configuration: the bot's access token, the posting instance's
/// base URL, the two pacing delays in seconds, the tracked feeds, the two
/// mode flags, and the optional preview-image paths (the HTML template and
/// the default image used when an item brings none).
#[derive(Debug, Clone)]
pub struct Config {
    pub bot_token: String,
    pub base_url: String,
    pub items_sleep: u64,
    pub watting_new: u64,
    pub feeds: Vec<Feed>,
    pub only_new: bool,
    pub dry_run: bool,
    pub preview_image_template: Option<String>,
    pub default_preview_image: Option<String>,
}

// ---------------------------------------------------------------------------
// URL validation, behind a trusted contract
// ---------------------------------------------------------------------------

/// What the outside URL parser yields for a line of the feed list: the
/// normalized serialization of the URL, or nothing when the line is not a
/// valid absolute URL.
pub uninterp spec fn parsed_url(s: Seq<char>) -> Option<Seq<char>>;

/// Relies on url's `Url::parse` and `Url::as_str`: validity and the
/// normalized serialization depend on the text alone.
#[verifier::external_body]
fn parse_url(s: &str) -> (r: Option<String>)
    ensures
        r is Some <==> parsed_url(s@) is Some,
        r is Some ==> r->0@ == parsed_url(s@)->0,
{
    match url::Url::parse(s) {
        Ok(u) => Some(u.as_str().to_owned()),
        Err(_) => None,
    }
}

// ---------------------------------------------------------------------------
// The feed list
// ---------------------------------------------------------------------------

/// The URLs a feed-list file yields, line by line: blank lines are skipped,
/// every other line must parse as a URL, and one bad line spoils the whole
/// list.
pub open spec fn feed_urls_of(lines: Seq<Seq<char>>) -> Option<Seq<Seq<char>>>
    decreases lines.len(),
{
    if lines.len() == 0 {
        Some(Seq::empty())
    } else if lines[0].len() == 0 {
        feed_urls_of(lines.skip(1))
    } else if parsed_url(lines[0]) is Some {
        match feed_urls_of(lines.skip(1)) {
            Some(rest) => Some(seq![parsed_url(lines[0])->0] + rest),
            None => None,
        }
    } else {
        None
    }
}

/// One bad line anywhere spoils the list.
proof fn lemma_feed_urls_spoiled(lines: Seq<Seq<char>>, k: int)
    requires
        0 <= k < lines.len(),
        lines[k].len() > 0,
        parsed_url(lines[k]) is None,
    ensures
        feed_urls_of(lines) is None,
    decreases lines.len(),
{
    if k > 0 {
        assert(lines.skip(1)[k - 1] == lines[k]);
        lemma_feed_urls_spoiled(lines.skip(1), k - 1);
    }
}

/// The feed URLs of a sequence of trackers.
pub open spec fn urls_of(fs: Seq<Feed>) -> Seq<Seq<char>> {
    fs.map_values(|f: Feed| f.url@)
}

/// Builds the feed trackers from the lines of the feed list.  Blank lines
/// are skipped; any other line that is not a valid URL fails the whole
/// startup with `InvalidUrl` naming the first such line.  In only-new mode
/// every tracker starts with its watermark set to the present moment.
pub fn parse_feeds(lines: &Vec<String>, only_new: bool) -> (r: Result<Vec<Feed>, Error>)
    ensures
        ({
            let views = lines@.map_values(|l: String| l@);
            match r {
                Ok(fs) => feed_urls_of(views) matches Some(urls) && fs@.len() == urls.len() && (
                forall|i: int|
                    0 <= i < fs@.len() ==> #[trigger] fs@[i].url@ == urls[i] && (fs@[i].last_post
                        is Some <==> only_new)),
                Err(e) => feed_urls_of(views) is None && exists|k: int|
                    0 <= k < views.len() && #[trigger] views[k].len() > 0 && parsed_url(views[k])
                        is None && (forall|j: int|
                        0 <= j < k ==> #[trigger] views[j].len() == 0 || parsed_url(views[j])
                            is Some) && (e matches Error::InvalidUrl(l) && l@ == views[k]),
            }
        }),
{
    let ghost views = lines@.map_values(|l: String| l@);
    let mut out: Vec<Feed> = Vec::new();
    let mut i: usize = 0;
    proof {
        assert(views.skip(0) =~= views);
    }
    while i < lines.len()
        invariant
            i <= views.len(),
            views == lines@.map_values(|l: String| l@),
            urls_of(out@).len() == out@.len(),
            forall|j: int|
                0 <= j < out@.len() ==> (#[trigger] out@[j].last_post is Some <==> only_new),
            forall|j: int|
                0 <= j < i ==> #[trigger] views[j].len() == 0 || parsed_url(views[j]) is Some,
            match feed_urls_of(views.skip(i as int)) {
                Some(rest) => feed_urls_of(views) == Some(urls_of(out@) + rest),
                None => feed_urls_of(views) is None,
            },
        decreases views.len() - i,
    {
        let ghost tail = views.skip(i as int);
        proof {
            assert(tail[0] == views[i as int]);
            assert(tail.skip(1) =~= views.skip(i + 1));
        }
        let line = &lines[i];
        if !line.as_str().is_empty() {
            match parse_url(line.as_str()) {
                Some(u) => {
                    let ghost pre = out@;
                    out.push(Feed::new(u, only_new));
                    proof {
                        assert(urls_of(out@) =~= urls_of(pre).push(parsed_url(views[i as int])->0));
                        let t = feed_urls_of(views.skip(i + 1));
                        if t is Some {
                            assert(urls_of(pre) + (seq![parsed_url(views[i as int])->0] + t->0)
                                =~= urls_of(out@) + t->0);
                        }
                    }
                },
                None => {
                    let e = Error::InvalidUrl(line.clone());
                    proof {
                        lemma_feed_urls_spoiled(views, i as int);
                        assert(views[i as int].len() > 0 && parsed_url(views[i as int]) is None
                            && (e matches Error::InvalidUrl(l) && l@ == views[i as int]));
                    }
                    return Err(e);
                },
            }
        }
        i = i + 1;
    }
    proof {
        assert(views.skip(views.len() as int) =~= Seq::<Seq<char>>::empty());
        assert(urls_of(out@) + Seq::<Seq<char>>::empty() =~= urls_of(out@));
    }
    Ok(out)
}

// ---------------------------------------------------------------------------
// The posting instance's base URL
// ---------------------------------------------------------------------------

/// `s` without its trailing slashes.
pub open spec fn trimmed_slashes(s: Seq<char>) -> Seq<char>
    decreases s.len(),
{
    if s.len() > 0 && s[s.len() - 1] == '/' {
        trimmed_slashes(s.take(s.len() - 1))
    } else {
        s
    }
}

proof fn lemma_trimmed_slashes_at(s: Seq<char>, b: int)
    requires
        0 <= b <= s.len(),
        forall|k: int| b <= k < s.len() ==> s[k] == '/',
        b > 0 ==> s[b - 1] != '/',
    ensures
        trimmed_slashes(s) == s.take(b),
    decreases s.len() - b,
{
    if b == s.len() {
        assert(s.take(b) =~= s);
    } else {
        lemma_trimmed_slashes_at(s.take(s.len() - 1), b);
        assert(s.take(s.len() - 1).take(b) =~= s.take(b));
    }
}

/// The base URL as the posting endpoints want it: trailing slashes removed.
pub fn normalized_base_url(base: &str) -> (r: String)
    ensures
        r@ == trimmed_slashes(base@),
{
    let chars = crate::text::str_to_chars(base);
    let mut b: usize = chars.len();
    while b > 0 && chars[b - 1] == '/'
        invariant
            b <= chars@.len(),
            chars@ == base@,
            forall|k: int| b <= k < chars@.len() ==> chars@[k] == '/',
        decreases b,
    {
        b = b - 1;
    }
    let mut out: Vec<char> = Vec::new();
    let mut i: usize = 0;
    while i < b
        invariant
            i <= b <= chars@.len(),
            chars@ == base@,
            out@ =~= chars@.take(i as int),
        decreases b - i,
    {
        out.push(chars[i]);
        i = i + 1;
    }
    proof {
        lemma_trimmed_slashes_at(base@, b as int);
        assert(out@ =~= base@.take(b as int));
    }
    crate::text::chars_to_string(&out)
}

} // verus!
