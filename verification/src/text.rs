use vstd::prelude::*;

verus! {

// ---------------------------------------------------------------------------
// Character classes
// ---------------------------------------------------------------------------

/// The Unicode `White_Space` characters, the set that `str::trim` removes.
pub open spec fn is_space(c: char) -> bool {
    let n = c as u32;
    n == 0x20 || (0x9 <= n && n <= 0xD) || n == 0x85 || n == 0xA0 || n == 0x1680 || (0x2000 <= n
        && n <= 0x200A) || n == 0x2028 || n == 0x2029 || n == 0x202F || n == 0x205F || n == 0x3000
}

/// Decides [`is_space`].
pub fn is_space_char(c: char) -> (r: bool)
    ensures
        r == is_space(c),
{
    let n = c as u32;
    n == 0x20 || (0x9 <= n && n <= 0xD) || n == 0x85 || n == 0xA0 || n == 0x1680 || (0x2000 <= n
        && n <= 0x200A) || n == 0x2028 || n == 0x2029 || n == 0x202F || n == 0x205F || n == 0x3000
}

// ---------------------------------------------------------------------------
// Conversions between strings and character vectors
// ---------------------------------------------------------------------------

/// The characters of `text`, in order.
pub fn str_to_chars(text: &str) -> (r: Vec<char>)
    ensures
        r@ == text@,
{
    let n = text.unicode_len();
    let mut out: Vec<char> = Vec::new();
    let mut i: usize = 0;
    while i < n
        invariant
            i <= n,
            n == text@.len(),
            out@ =~= text@.take(i as int),
        decreases n - i,
    {
        out.push(text.get_char(i));
        i = i + 1;
    }
    proof {
        assert(out@ =~= text@);
    }
    out
}

/// Relies on `String`'s `FromIterator<char>`: collecting characters yields
/// the string made of exactly those characters, in order.
#[verifier::external_body]
pub fn chars_to_string(v: &Vec<char>) -> (r: String)
    ensures
        r@ == v@,
{
    v.iter().collect()
}

/// A fresh vector with the same characters as `s`.
pub fn copy_chars(s: &Vec<char>) -> (r: Vec<char>)
    ensures
        r@ == s@,
{
    let mut out: Vec<char> = Vec::new();
    let mut i: usize = 0;
    while i < s.len()
        invariant
            i <= s@.len(),
            out@ =~= s@.take(i as int),
        decreases s@.len() - i,
    {
        out.push(s[i]);
        i = i + 1;
    }
    proof {
        assert(out@ =~= s@);
    }
    out
}

// ---------------------------------------------------------------------------
// Replacing every occurrence of a pattern
// ---------------------------------------------------------------------------

/// `s` with every (leftmost, non-overlapping) occurrence of `pat` replaced by
/// `rep`.  An empty pattern leaves `s` unchanged.
pub open spec fn replaced(s: Seq<char>, pat: Seq<char>, rep: Seq<char>) -> Seq<char>
    decreases s.len(),
{
    if pat.len() == 0 || s.len() < pat.len() {
        s
    } else if s.take(pat.len() as int) == pat {
        rep + replaced(s.skip(pat.len() as int), pat, rep)
    } else {
        seq![s[0]] + replaced(s.skip(1), pat, rep)
    }
}

/// Whether `pat` occurs in `s` at position `i`.
fn matches_at(s: &Vec<char>, i: usize, pat: &Vec<char>) -> (r: bool)
    requires
        i + pat@.len() <= s@.len(),
    ensures
        r == (s@.subrange(i as int, i + pat@.len()) == pat@),
{
    let slen = s.len();
    let mut j: usize = 0;
    while j < pat.len()
        invariant
            j <= pat@.len(),
            i + pat@.len() <= s@.len(),
            slen == s@.len(),
            forall|k: int| 0 <= k < j ==> s@[i + k] == pat@[k],
        decreases pat@.len() - j,
    {
        if s[i + j] != pat[j] {
            proof {
                assert(s@.subrange(i as int, i + pat@.len())[j as int] != pat@[j as int]);
            }
            return false;
        }
        j = j + 1;
    }
    proof {
        assert(s@.subrange(i as int, i + pat@.len()) =~= pat@);
    }
    true
}

/// `s` with every occurrence of `pat` replaced by `rep`.
pub fn replace_all(s: &Vec<char>, pat: &Vec<char>, rep: &Vec<char>) -> (r: Vec<char>)
    ensures
        r@ == replaced(s@, pat@, rep@),
{
    if pat.len() == 0 {
        return copy_chars(s);
    }
    let mut out: Vec<char> = Vec::new();
    let mut i: usize = 0;
    proof {
        assert(s@.skip(0) =~= s@);
        assert(out@ + replaced(s@, pat@, rep@) =~= replaced(s@, pat@, rep@));
    }
    while i < s.len()
        invariant
            0 < pat@.len(),
            i <= s@.len(),
            replaced(s@, pat@, rep@) == out@ + replaced(s@.skip(i as int), pat@, rep@),
        decreases s@.len() - i,
    {
        let ghost pre = out@;
        let ghost tail = s@.skip(i as int);
        if s.len() - i >= pat.len() && matches_at(s, i, pat) {
            proof {
                assert(tail.take(pat@.len() as int) =~= s@.subrange(i as int, i + pat@.len()));
                assert(tail.skip(pat@.len() as int) =~= s@.skip(i + pat@.len()));
            }
            let mut j: usize = 0;
            while j < rep.len()
                invariant
                    j <= rep@.len(),
                    out@ =~= pre + rep@.take(j as int),
                decreases rep@.len() - j,
            {
                out.push(rep[j]);
                j = j + 1;
            }
            proof {
                assert(out@ =~= pre + rep@);
                assert(replaced(tail, pat@, rep@) == rep@ + replaced(
                    s@.skip(i + pat@.len()),
                    pat@,
                    rep@,
                ));
            }
            i = i + pat.len();
        } else {
            proof {
                if s@.len() - i >= pat@.len() {
                    assert(tail.take(pat@.len() as int) =~= s@.subrange(i as int, i + pat@.len()));
                }
                assert(tail.skip(1) =~= s@.skip(i + 1));
            }
            out.push(s[i]);
            proof {
                assert(seq![tail[0]] =~= seq![s@[i as int]]);
                assert(out@ =~= pre + seq![tail[0]]);
            }
            i = i + 1;
        }
    }
    proof {
        assert(out@ + replaced(s@.skip(s@.len() as int), pat@, rep@) =~= out@);
    }
    out
}

// ---------------------------------------------------------------------------
// Stripping delimited spans (tags and entities)
// ---------------------------------------------------------------------------

/// `s` with everything up to and including its first `close` removed.
pub open spec fn drop_through(s: Seq<char>, close: char) -> Seq<char>
    decreases s.len(),
{
    if s.len() == 0 {
        s
    } else if s[0] == close {
        s.skip(1)
    } else {
        drop_through(s.skip(1), close)
    }
}

pub proof fn lemma_drop_through_len(s: Seq<char>, close: char)
    ensures
        drop_through(s, close).len() <= s.len(),
    decreases s.len(),
{
    if s.len() > 0 && s[0] != close {
        lemma_drop_through_len(s.skip(1), close);
    }
}

/// Where `k` is the first position of `close`, dropping through `close`
/// leaves exactly the characters after position `k`.
pub proof fn lemma_drop_through_at(s: Seq<char>, close: char, k: int)
    requires
        0 <= k < s.len(),
        s[k] == close,
        forall|l: int| 0 <= l < k ==> s[l] != close,
    ensures
        drop_through(s, close) == s.skip(k + 1),
    decreases k,
{
    if k > 0 {
        lemma_drop_through_at(s.skip(1), close, k - 1);
        assert(s.skip(1).skip(k) =~= s.skip(k + 1));
    }
}

/// `s` with every span from an `open` character to the next `close`
/// character (both included) removed.  An `open` with no following `close`
/// stays as it is.
pub open spec fn span_stripped(s: Seq<char>, open: char, close: char) -> Seq<char>
    decreases s.len(),
{
    if s.len() == 0 {
        s
    } else if s[0] == open && s.skip(1).contains(close) {
        proof {
            lemma_drop_through_len(s.skip(1), close);
        }
        span_stripped(drop_through(s.skip(1), close), open, close)
    } else {
        seq![s[0]] + span_stripped(s.skip(1), open, close)
    }
}

/// `s` with every `open ... close` span removed.
pub fn strip_spans(s: &Vec<char>, open: char, close: char) -> (r: Vec<char>)
    ensures
        r@ == span_stripped(s@, open, close),
{
    let mut out: Vec<char> = Vec::new();
    let mut i: usize = 0;
    proof {
        assert(s@.skip(0) =~= s@);
        assert(out@ + span_stripped(s@, open, close) =~= span_stripped(s@, open, close));
    }
    while i < s.len()
        invariant
            i <= s@.len(),
            span_stripped(s@, open, close) == out@ + span_stripped(s@.skip(i as int), open, close),
        decreases s@.len() - i,
    {
        let ghost tail = s@.skip(i as int);
        let ghost pre = out@;
        proof {
            assert(tail[0] == s@[i as int]);
            assert(tail.skip(1) =~= s@.skip(i + 1));
        }
        if s[i] == open {
            let mut j: usize = i + 1;
            while j < s.len() && s[j] != close
                invariant
                    i + 1 <= j <= s@.len(),
                    forall|l: int| i < l < j ==> s@[l] != close,
                decreases s@.len() - j,
            {
                j = j + 1;
            }
            let ghost t1 = s@.skip(i + 1);
            if j < s.len() {
                proof {
                    assert(t1[j - i - 1] == close);
                    assert(t1.contains(close));
                    assert(forall|l: int| 0 <= l < j - i - 1 ==> t1[l] != close);
                    lemma_drop_through_at(t1, close, j - i - 1);
                    assert(t1.skip(j - i) =~= s@.skip(j + 1));
                }
                i = j + 1;
            } else {
                proof {
                    assert(forall|m: int| 0 <= m < t1.len() ==> t1[m] != close);
                    assert(!t1.contains(close));
                }
                out.push(s[i]);
                proof {
                    assert(out@ =~= pre + seq![tail[0]]);
                }
                i = i + 1;
            }
        } else {
            out.push(s[i]);
            proof {
                assert(out@ =~= pre + seq![tail[0]]);
            }
            i = i + 1;
        }
    }
    proof {
        assert(out@ + span_stripped(s@.skip(s@.len() as int), open, close) =~= out@);
    }
    out
}

// ---------------------------------------------------------------------------
// Trimming surrounding whitespace
// ---------------------------------------------------------------------------

/// `s` without its leading whitespace.
pub open spec fn trim_start(s: Seq<char>) -> Seq<char>
    decreases s.len(),
{
    if s.len() > 0 && is_space(s[0]) {
        trim_start(s.skip(1))
    } else {
        s
    }
}

/// `s` without its trailing whitespace.
pub open spec fn trim_end(s: Seq<char>) -> Seq<char>
    decreases s.len(),
{
    if s.len() > 0 && is_space(s[s.len() - 1]) {
        trim_end(s.take(s.len() - 1))
    } else {
        s
    }
}

/// `s` without leading and trailing whitespace.
pub open spec fn trimmed(s: Seq<char>) -> Seq<char> {
    trim_end(trim_start(s))
}

proof fn lemma_trim_start_at(s: Seq<char>, a: int)
    requires
        0 <= a <= s.len(),
        forall|k: int| 0 <= k < a ==> is_space(s[k]),
        a < s.len() ==> !is_space(s[a]),
    ensures
        trim_start(s) == s.skip(a),
    decreases a,
{
    if a == 0 {
        assert(s.skip(0) =~= s);
    } else {
        lemma_trim_start_at(s.skip(1), a - 1);
        assert(s.skip(1).skip(a - 1) =~= s.skip(a));
    }
}

proof fn lemma_trim_end_at(s: Seq<char>, b: int)
    requires
        0 <= b <= s.len(),
        forall|k: int| b <= k < s.len() ==> is_space(s[k]),
        b > 0 ==> !is_space(s[b - 1]),
    ensures
        trim_end(s) == s.take(b),
    decreases s.len() - b,
{
    if b == s.len() {
        assert(s.take(b) =~= s);
    } else {
        lemma_trim_end_at(s.take(s.len() - 1), b);
        assert(s.take(s.len() - 1).take(b) =~= s.take(b));
    }
}

/// `s` with surrounding whitespace removed.
pub fn trim_chars(s: &Vec<char>) -> (r: Vec<char>)
    ensures
        r@ == trimmed(s@),
{
    let mut a: usize = 0;
    while a < s.len() && is_space_char(s[a])
        invariant
            a <= s@.len(),
            forall|k: int| 0 <= k < a ==> is_space(s@[k]),
        decreases s@.len() - a,
    {
        a = a + 1;
    }
    let mut b: usize = s.len();
    while b > a && is_space_char(s[b - 1])
        invariant
            a <= b <= s@.len(),
            forall|k: int| b <= k < s@.len() ==> is_space(s@[k]),
        decreases b,
    {
        b = b - 1;
    }
    let mut out: Vec<char> = Vec::new();
    let mut i: usize = a;
    while i < b
        invariant
            a <= i <= b <= s@.len(),
            out@ =~= s@.subrange(a as int, i as int),
        decreases b - i,
    {
        out.push(s[i]);
        i = i + 1;
    }
    proof {
        lemma_trim_start_at(s@, a as int);
        let t = s@.skip(a as int);
        assert(forall|k: int| b - a <= k < t.len() ==> is_space(t[k]));
        lemma_trim_end_at(t, b - a);
        assert(t.take(b - a) =~= s@.subrange(a as int, b as int));
        assert(out@ =~= s@.subrange(a as int, b as int));
    }
    out
}

// ---------------------------------------------------------------------------
// The description-normalization pass
// ---------------------------------------------------------------------------

/// The literal line-break tag that is removed before tag stripping.
pub open spec fn break_tag() -> Seq<char> {
    seq!['<', 'b', 'r', ' ', '/', '>']
}

/// The full normalization of an item description: `"<br />"` occurrences
/// removed, then every `<...>` tag span, then every `&...;` entity span, and
/// the result trimmed of surrounding whitespace.
pub open spec fn html_stripped(s: Seq<char>) -> Seq<char> {
    trimmed(
        span_stripped(span_stripped(replaced(s, break_tag(), Seq::empty()), '<', '>'), '&', ';'),
    )
}

/// Removes markup from a description: HTML tags and HTML entities are taken
/// out and the remaining text is trimmed.
pub fn remove_html_tags(text: &str) -> (r: String)
    ensures
        r@ == html_stripped(text@),
{
    let chars = str_to_chars(text);
    let mut br: Vec<char> = Vec::new();
    br.push('<');
    br.push('b');
    br.push('r');
    br.push(' ');
    br.push('/');
    br.push('>');
    proof {
        assert(br@ =~= break_tag());
    }
    let empty: Vec<char> = Vec::new();
    proof {
        assert(empty@ =~= Seq::<char>::empty());
    }
    let untagged = strip_spans(&replace_all(&chars, &br, &empty), '<', '>');
    let plain = trim_chars(&strip_spans(&untagged, '&', ';'));
    chars_to_string(&plain)
}

} // verus!
