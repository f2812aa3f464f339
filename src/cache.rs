//! Conditional-GET validators of a file: the entity tag built from its
//! modification time and size, and the freshness decision.
use vstd::prelude::*;

verus! {

broadcast use vstd::string::group_string_axioms;

/// The year-10000 bound, in seconds since the epoch, beyond which an HTTP
/// date cannot be formed.
pub const MAX_HTTP_SECS: u64 = 253402300800;

pub open spec fn digit_char(d: nat) -> char {
    if d == 0 { '0' } else if d == 1 { '1' } else if d == 2 { '2' } else if d == 3 { '3' }
    else if d == 4 { '4' } else if d == 5 { '5' } else if d == 6 { '6' } else if d == 7 { '7' }
    else if d == 8 { '8' } else { '9' }
}

/// The decimal digits of `n`, most significant first, without leading zeros.
pub open spec fn decimal(n: nat) -> Seq<char>
    decreases n,
{
    if n < 10 {
        seq![digit_char(n)]
    } else {
        decimal(n / 10).push(digit_char(n % 10))
    }
}

/// The entity tag of a file: `"<mtime-millis>-<size>"`, quotes included.
pub open spec fn etag_spec(mtime: nat, size: nat) -> Seq<char> {
    seq!['"'] + decimal(mtime) + seq!['-'] + decimal(size) + seq!['"']
}

/// A quoted tag whose inner characters are digits or `-`.
pub open spec fn is_simple_tag(t: Seq<char>) -> bool {
    &&& t.len() >= 2
    &&& t[0] == '"'
    &&& t[t.len() - 1] == '"'
    &&& forall|i: int| 1 <= i < t.len() - 1 ==> ('0' <= #[trigger] t[i] <= '9' || t[i] == '-')
}

/// Whether an `If-None-Match` value lets the request through for a tag
/// (the tag matches none of the listed ones), when the value is well formed.
pub uninterp spec fn none_match_passes(header: Seq<char>, etag: Seq<char>) -> Option<bool>;

/// The time an `If-Modified-Since` value names, in whole seconds since the
/// epoch, when it is a well-formed HTTP date.
pub uninterp spec fn http_date_secs(header: Seq<char>) -> Option<int>;

/// The number of `"` among the first `i` characters of `h`.
pub open spec fn quotes_before(h: Seq<char>, i: int) -> nat
    decreases i,
{
    if i <= 0 {
        0
    } else if h[i - 1] == '"' {
        quotes_before(h, i - 1) + 1
    } else {
        quotes_before(h, i - 1)
    }
}

/// No space or tab stands between a pair of double quotes: each one is
/// preceded by an even number of `"`.
pub open spec fn no_blank_in_quotes(h: Seq<char>) -> bool {
    forall|i: int| 0 <= i < h.len() && (h[i] == ' ' || h[i] == '\t') ==> #[trigger] quotes_before(h, i) % 2 == 0
}

/// Relies on `headers::IfNoneMatch` (decoded from one header value) and its
/// `precondition_passes`, with the tag parsed by `headers::ETag`'s `FromStr`:
/// a value equal to the tag itself lists that tag, and `*` matches any tag,
/// so in both cases the precondition fails.
/// The tag parser asserts, in debug builds, that no space or tab stands
/// inside a quoted tag, so such values are kept out.
#[verifier::external_body]
fn if_none_match(header: &str, etag: &str) -> (r: Option<bool>)
    requires
        is_simple_tag(etag@),
        no_blank_in_quotes(header@),
    ensures
        r == none_match_passes(header@, etag@),
        header@ == etag@ ==> r == Some(false),
        header@ == seq!['*'] ==> r == Some(false),
{
    let value = headers::HeaderValue::from_str(header).ok()?;
    let range = <headers::IfNoneMatch as headers::Header>::decode(&mut std::iter::once(&value)).ok()?;
    let tag = etag.parse::<headers::ETag>().ok()?;
    Some(range.precondition_passes(&tag))
}

/// Relies on `headers::IfModifiedSince` (decoded from one header value) and
/// its `is_modified`: the named date is earlier than the modification time,
/// both taken in whole seconds.
#[verifier::external_body]
fn if_modified_since(header: &str, mtime_ms: u64) -> (r: Option<bool>)
    requires
        mtime_ms / 1000 < MAX_HTTP_SECS,
    ensures
        r.is_some() == http_date_secs(header@).is_some(),
        r.is_some() ==> r.unwrap() == (http_date_secs(header@).unwrap() < mtime_ms / 1000),
{
    let value = headers::HeaderValue::from_str(header).ok()?;
    let since = <headers::IfModifiedSince as headers::Header>::decode(&mut std::iter::once(&value)).ok()?;
    let mtime = std::time::UNIX_EPOCH + std::time::Duration::from_millis(mtime_ms);
    Some(since.is_modified(mtime))
}

/// Whether no space or tab stands between a pair of double quotes in `h`.
pub fn blank_free_in_quotes(h: &str) -> (r: bool)
    ensures
        r == no_blank_in_quotes(h@),
{
    let n = h.unicode_len();
    let mut inside = false;
    let mut i: usize = 0;
    while i < n
        invariant
            n == h@.len(),
            i <= n,
            inside == (quotes_before(h@, i as int) % 2 == 1),
            forall|j: int| 0 <= j < i && (h@[j] == ' ' || h@[j] == '\t') ==> #[trigger] quotes_before(h@, j) % 2 == 0,
        decreases n - i,
    {
        let c = h.get_char(i);
        if inside && (c == ' ' || c == '\t') {
            return false;
        }
        if c == '"' {
            inside = !inside;
        }
        i = i + 1;
    }
    true
}

/// Freshness from what the two headers say: `If-None-Match`, when present,
/// decides alone; otherwise `If-Modified-Since` does; with neither the
/// content is not fresh.
pub open spec fn fresh_spec(none_match: Option<bool>, modified: Option<bool>) -> bool {
    match none_match {
        Some(passes) => !passes,
        None => match modified {
            Some(m) => !m,
            None => false,
        },
    }
}

/// When `If-None-Match` lists the file's current tag (its precondition fails),
/// the copy is fresh whatever `If-Modified-Since` says, so the file is
/// answered with 304 and its validators alone.
pub proof fn lemma_listed_tag_is_fresh(modified: Option<bool>)
    ensures
        fresh_spec(Some(false), modified),
{
}

/// Whether the client's copy is fresh, from the outcome of each header's
/// check (`None` for a header that is absent or malformed).
pub fn is_fresh(none_match: Option<bool>, modified: Option<bool>) -> (r: bool)
    ensures
        r == fresh_spec(none_match, modified),
{
    match none_match {
        Some(passes) => !passes,
        None => match modified {
            Some(m) => !m,
            None => false,
        },
    }
}

fn digit_str(d: u64) -> (r: String)
    requires
        d < 10,
    ensures
        r@ == seq![digit_char(d as nat)],
{
    proof {
        reveal_strlit("0123456789");
    }
    let s = "0123456789".substring_char(d as usize, d as usize + 1);
    s.to_owned()
}

/// The decimal form of `n`.
pub fn decimal_string(n: u64) -> (r: String)
    ensures
        r@ == decimal(n as nat),
    decreases n,
{
    if n < 10 {
        digit_str(n)
    } else {
        let mut s = decimal_string(n / 10);
        let d = digit_str(n % 10);
        s.append(d.as_str());
        s
    }
}

/// The entity tag of a file with this modification time and size.
pub fn file_etag(mtime: u64, size: u64) -> (r: String)
    ensures
        r@ == etag_spec(mtime as nat, size as nat),
{
    proof {
        reveal_strlit("\"");
        reveal_strlit("-");
    }
    let mut r = String::new();
    r.append("\"");
    let m = decimal_string(mtime);
    r.append(m.as_str());
    r.append("-");
    let s = decimal_string(size);
    r.append(s.as_str());
    r.append("\"");
    assert(r@ =~= etag_spec(mtime as nat, size as nat));
    r
}

proof fn lemma_decimal_digits(n: nat)
    ensures
        decimal(n).len() >= 1,
        forall|i: int| 0 <= i < decimal(n).len() ==> '0' <= #[trigger] decimal(n)[i] <= '9',
    decreases n,
{
    if n >= 10 {
        lemma_decimal_digits(n / 10);
    }
}

/// A file's entity tag is a quoted run of digits and `-`.
pub proof fn lemma_etag_simple(mtime: nat, size: nat)
    ensures
        is_simple_tag(etag_spec(mtime, size)),
{
    lemma_decimal_digits(mtime);
    lemma_decimal_digits(size);
    let t = etag_spec(mtime, size);
    let a = decimal(mtime);
    let b = decimal(size);
    assert forall|i: int| 1 <= i < t.len() - 1 implies ('0' <= #[trigger] t[i] <= '9' || t[i] == '-') by {
        if i <= a.len() {
            assert(t[i] == a[i - 1]);
        } else if i == a.len() + 1 {
            assert(t[i] == '-');
        } else {
            assert(t[i] == b[i - a.len() - 2]);
        }
    }
}

/// A file's validators and whether the request's copy is fresh.
pub struct Validators {
    pub etag: String,
    pub fresh: bool,
}

/// Computes a file's entity tag and decides freshness from the request's
/// `If-None-Match` and `If-Modified-Since` values. An `If-None-Match` value
/// with a space or tab inside quotes lists no valid tag: it still decides,
/// and the copy is not fresh. A
/// file dated past the year 9999 counts as modified since any date.
pub fn check_fresh(if_none_match_value: Option<&str>, if_modified_since_value: Option<&str>, mtime: u64, size: u64) -> (r: Validators)
    ensures
        r.etag@ == etag_spec(mtime as nat, size as nat),
        ({
            let nm = match if_none_match_value {
                Some(h) => if no_blank_in_quotes(h@) {
                    none_match_passes(h@, r.etag@)
                } else {
                    Some(true)
                },
                None => None,
            };
            let ms = match if_modified_since_value {
                Some(h) => if mtime / 1000 < MAX_HTTP_SECS {
                    match http_date_secs(h@) {
                        Some(s) => Some(s < mtime / 1000),
                        None => None,
                    }
                } else {
                    Some(true)
                },
                None => None,
            };
            r.fresh == fresh_spec(nm, ms)
        }),
        if_none_match_value matches Some(h) && h@ == etag_spec(mtime as nat, size as nat) ==> r.fresh,
{
    let etag = file_etag(mtime, size);
    proof {
        lemma_etag_simple(mtime as nat, size as nat);
    }
    let nm = match if_none_match_value {
        Some(h) => if blank_free_in_quotes(h) {
            if_none_match(h, etag.as_str())
        } else {
            Some(true)
        },
        None => None,
    };
    let ms = match if_modified_since_value {
        Some(h) => if mtime / 1000 < MAX_HTTP_SECS {
            if_modified_since(h, mtime)
        } else {
            Some(true)
        },
        None => None,
    };
    let fresh = is_fresh(nm, ms);
    Validators { etag, fresh }
}

} // verus!
