//! Backend URL conventions: pure construction of display and raw URLs from
//! a paste identifier, and the inverse parsing that recovers the identifier
//! from a URL, with round-trip proofs for each backend whose scheme permits
//! the shortcut.
//!
//! The shared convention: an `http://` or `https://` scheme, a host, then
//! path segments; the identifier is the last path segment, read after any
//! query or fragment is cut off. Parsing returns nothing on any other
//! shape — it never fails loudly.

use vstd::prelude::*;
use vstd::string::{StrSliceExecFns, StringExecFns};
use crate::range::{first_idx, has_char, lemma_first_idx_from_scan};
use crate::strutil::str_eq;

verus! {

/// Whether `p` is a prefix of `s`.
pub open spec fn starts_with(s: Seq<char>, p: Seq<char>) -> bool {
    s.len() >= p.len() && s.take(p.len() as int) == p
}

/// The index of the last occurrence of `ch` in `s`, or `-1` when there is
/// none.
pub open spec fn last_idx(s: Seq<char>, ch: char) -> int
    decreases s.len(),
{
    if s.len() == 0 {
        -1
    } else if s.last() == ch {
        s.len() - 1
    } else {
        last_idx(s.drop_last(), ch)
    }
}

/// A right-to-left characterization: `d` is the last occurrence if nothing
/// after it matches.
pub proof fn lemma_last_idx_from_scan(s: Seq<char>, ch: char, d: int)
    requires
        -1 <= d < s.len(),
        d >= 0 ==> s[d] == ch,
        forall|k: int| d < k < s.len() ==> s[k] != ch,
    ensures
        last_idx(s, ch) == d,
    decreases s.len(),
{
    if s.len() > 0 {
        if d == s.len() - 1 {
        } else {
            assert(s.last() != ch);
            assert(forall|k: int| d < k < s.drop_last().len() ==> s.drop_last()[k] != ch);
            lemma_last_idx_from_scan(s.drop_last(), ch, d);
        }
    }
}

proof fn lemma_first_idx_nonneg(s: Seq<char>, ch: char)
    ensures
        first_idx(s, ch) >= 0,
    decreases s.len(),
{
    if s.len() > 0 && s[0] != ch {
        lemma_first_idx_nonneg(s.drop_first(), ch);
    }
}

proof fn lemma_first_idx_lower(s: Seq<char>, ch: char, c: int)
    requires
        0 <= c <= s.len(),
        forall|k: int| 0 <= k < c ==> s[k] != ch,
    ensures
        first_idx(s, ch) >= c,
    decreases c,
{
    lemma_first_idx_nonneg(s, ch);
    if c > 0 {
        assert(s[0] != ch);
        assert forall|k: int| 0 <= k < c - 1 implies #[trigger] s.drop_first()[k] != ch by {
            assert(s.drop_first()[k] == s[k + 1]);
        }
        lemma_first_idx_lower(s.drop_first(), ch, c - 1);
        assert(first_idx(s, ch) == 1 + first_idx(s.drop_first(), ch));
    }
}

/// Where the query or fragment part begins: the first `?` or `#`, or the
/// whole length when there is neither.
pub open spec fn cut_len(s: Seq<char>) -> int {
    let q = first_idx(s, '?');
    let h = first_idx(s, '#');
    if q <= h {
        q
    } else {
        h
    }
}

proof fn lemma_cut_from_scan(s: Seq<char>, c: int)
    requires
        0 <= c <= s.len(),
        forall|k: int| 0 <= k < c ==> s[k] != '?' && s[k] != '#',
        c < s.len() ==> s[c] == '?' || s[c] == '#',
    ensures
        cut_len(s) == c,
{
    lemma_first_idx_lower(s, '?', c);
    lemma_first_idx_lower(s, '#', c);
    if c < s.len() {
        if s[c] == '?' {
            lemma_first_idx_from_scan(s, '?', c);
        } else {
            lemma_first_idx_from_scan(s, '#', c);
        }
    } else {
        lemma_first_idx_from_scan(s, '?', c);
        lemma_first_idx_from_scan(s, '#', c);
    }
}

/// The identifier a URL names under the shared convention, if any: the last
/// path segment after the scheme and host, with query and fragment cut off.
pub open spec fn spec_last_segment(s: Seq<char>) -> Option<Seq<char>> {
    let cut = s.take(cut_len(s));
    if starts_with(cut, "http://"@) || starts_with(cut, "https://"@) {
        let sl: int = if starts_with(cut, "https://"@) {
            8
        } else {
            7
        };
        let rest = cut.skip(sl);
        if has_char(rest, '/') {
            Some(rest.skip(last_idx(rest, '/') + 1))
        } else {
            None
        }
    } else {
        None
    }
}

/// Whether `s` starts with `p`.
pub fn str_starts_with(s: &str, p: &str) -> (r: bool)
    ensures
        r == starts_with(s@, p@),
{
    let sl = s.unicode_len();
    let pl = p.unicode_len();
    if sl < pl {
        return false;
    }
    let mut i: usize = 0;
    while i < pl
        invariant
            i <= pl,
            pl == p@.len(),
            sl == s@.len(),
            pl <= sl,
            forall|k: int| 0 <= k < i ==> s@[k] == p@[k],
        decreases pl - i,
    {
        let cs = s.get_char(i);
        let cp = p.get_char(i);
        if cs != cp {
            proof {
                assert(s@.take(pl as int)[i as int] == s@[i as int]);
            }
            return false;
        }
        i = i + 1;
    }
    proof {
        assert(s@.take(pl as int) =~= p@);
    }
    true
}

/// Reads the identifier out of a URL under the shared convention: the last
/// path segment, with query and fragment cut off; nothing when the scheme
/// is not `http` or `https` or there is no path.
pub fn last_url_segment(url: &str) -> (r: Option<String>)
    ensures
        match r {
            Some(id) => spec_last_segment(url@) == Some(id@),
            None => spec_last_segment(url@) is None,
        },
{
    let len = url.unicode_len();
    let mut c: usize = 0;
    while c < len && url.get_char(c) != '?' && url.get_char(c) != '#'
        invariant
            c <= len,
            len == url@.len(),
            forall|k: int| 0 <= k < c ==> url@[k] != '?' && url@[k] != '#',
        decreases len - c,
    {
        c = c + 1;
    }
    proof {
        lemma_cut_from_scan(url@, c as int);
    }
    let cut = url.substring_char(0, c);
    proof {
        assert(cut@ =~= url@.take(cut_len(url@)));
    }
    let sl: usize;
    if str_starts_with(cut, "https://") {
        sl = 8;
        proof {
            reveal_strlit("https://");
        }
    } else if str_starts_with(cut, "http://") {
        sl = 7;
        proof {
            reveal_strlit("http://");
        }
    } else {
        return None;
    }
    let clen = cut.unicode_len();
    let rest = cut.substring_char(sl, clen);
    let ghost spec_rest = url@.take(cut_len(url@)).skip(sl as int);
    proof {
        assert(rest@ =~= spec_rest);
    }
    let rlen = rest.unicode_len();
    let mut last: usize = 0;
    let mut found = false;
    let mut i: usize = 0;
    while i < rlen
        invariant
            i <= rlen,
            rlen == rest@.len(),
            found ==> last < i && rest@[last as int] == '/' && forall|k: int|
                last < k < i ==> rest@[k] != '/',
            !found ==> forall|k: int| 0 <= k < i ==> rest@[k] != '/',
        decreases rlen - i,
    {
        if rest.get_char(i) == '/' {
            last = i;
            found = true;
        }
        i = i + 1;
    }
    if !found {
        return None;
    }
    proof {
        lemma_last_idx_from_scan(rest@, '/', last as int);
    }
    let id = rest.substring_char(last + 1, rlen);
    proof {
        assert(id@ =~= spec_rest.skip(last_idx(spec_rest, '/') + 1));
    }
    Some(id.to_owned())
}

/// The path of a URL under the shared convention: what follows the first
/// slash after the scheme and host, query and fragment cut off.
pub open spec fn spec_url_path(s: Seq<char>) -> Option<Seq<char>> {
    let cut = s.take(cut_len(s));
    if starts_with(cut, "http://"@) || starts_with(cut, "https://"@) {
        let sl: int = if starts_with(cut, "https://"@) {
            8
        } else {
            7
        };
        let rest = cut.skip(sl);
        if has_char(rest, '/') {
            Some(rest.skip(first_idx(rest, '/') + 1))
        } else {
            None
        }
    } else {
        None
    }
}

/// The second path segment of a URL, where some backends keep the
/// identifier; nothing when the path has fewer than two segments.
pub open spec fn spec_second_segment(s: Seq<char>) -> Option<Seq<char>> {
    match spec_url_path(s) {
        Some(path) => {
            let p1 = first_idx(path, '/');
            if 0 <= p1 < path.len() {
                let tail = path.skip(p1 + 1);
                Some(tail.take(first_idx(tail, '/')))
            } else {
                None
            }
        },
        None => None,
    }
}

/// Reads the path part of a URL under the shared convention.
pub fn url_path(url: &str) -> (r: Option<String>)
    ensures
        match r {
            Some(path) => spec_url_path(url@) == Some(path@),
            None => spec_url_path(url@) is None,
        },
{
    let len = url.unicode_len();
    let mut c: usize = 0;
    while c < len && url.get_char(c) != '?' && url.get_char(c) != '#'
        invariant
            c <= len,
            len == url@.len(),
            forall|k: int| 0 <= k < c ==> url@[k] != '?' && url@[k] != '#',
        decreases len - c,
    {
        c = c + 1;
    }
    proof {
        lemma_cut_from_scan(url@, c as int);
    }
    let cut = url.substring_char(0, c);
    proof {
        assert(cut@ =~= url@.take(cut_len(url@)));
    }
    let sl: usize;
    if str_starts_with(cut, "https://") {
        sl = 8;
        proof {
            reveal_strlit("https://");
        }
    } else if str_starts_with(cut, "http://") {
        sl = 7;
        proof {
            reveal_strlit("http://");
        }
    } else {
        return None;
    }
    let clen = cut.unicode_len();
    let rest = cut.substring_char(sl, clen);
    let ghost spec_rest = url@.take(cut_len(url@)).skip(sl as int);
    proof {
        assert(rest@ =~= spec_rest);
    }
    let rlen = rest.unicode_len();
    let mut h: usize = 0;
    while h < rlen && rest.get_char(h) != '/'
        invariant
            h <= rlen,
            rlen == rest@.len(),
            forall|k: int| 0 <= k < h ==> rest@[k] != '/',
        decreases rlen - h,
    {
        h = h + 1;
    }
    proof {
        lemma_first_idx_from_scan(rest@, '/', h as int);
    }
    if h == rlen {
        proof {
            assert(forall|k: int| 0 <= k < rest@.len() ==> rest@[k] != '/');
        }
        return None;
    }
    let path = rest.substring_char(h + 1, rlen);
    proof {
        assert(has_char(spec_rest, '/')) by {
            assert(spec_rest[h as int] == '/');
        }
        assert(path@ =~= spec_rest.skip(first_idx(spec_rest, '/') + 1));
    }
    Some(path.to_owned())
}

/// Reads the second path segment of a URL under the shared convention.
pub fn second_url_segment(url: &str) -> (r: Option<String>)
    ensures
        match r {
            Some(id) => spec_second_segment(url@) == Some(id@),
            None => spec_second_segment(url@) is None,
        },
{
    let path = match url_path(url) {
        Some(p) => p,
        None => {
            return None;
        },
    };
    let plen = path.as_str().unicode_len();
    let mut p1: usize = 0;
    while p1 < plen && path.as_str().get_char(p1) != '/'
        invariant
            p1 <= plen,
            plen == path@.len(),
            forall|k: int| 0 <= k < p1 ==> path@[k] != '/',
        decreases plen - p1,
    {
        p1 = p1 + 1;
    }
    proof {
        lemma_first_idx_from_scan(path@, '/', p1 as int);
    }
    if p1 == plen {
        return None;
    }
    let tail = path.as_str().substring_char(p1 + 1, plen);
    proof {
        assert(tail@ =~= path@.skip(p1 + 1));
    }
    let tlen = tail.unicode_len();
    let mut p2: usize = 0;
    while p2 < tlen && tail.get_char(p2) != '/'
        invariant
            p2 <= tlen,
            tlen == tail@.len(),
            forall|k: int| 0 <= k < p2 ==> tail@[k] != '/',
        decreases tlen - p2,
    {
        p2 = p2 + 1;
    }
    proof {
        lemma_first_idx_from_scan(tail@, '/', p2 as int);
    }
    let id = tail.substring_char(0, p2);
    proof {
        assert(id@ =~= path@.skip(p1 + 1).take(first_idx(path@.skip(p1 + 1), '/')));
    }
    Some(id.to_owned())
}

// ---------------------------------------------------------------------------
// sprunge: one URL form for display and raw alike
// ---------------------------------------------------------------------------
/// sprunge's single URL form (the service has no TLS endpoint).
pub fn sprunge_url(id: &str) -> (r: String)
    ensures
        r@ == "http://sprunge.us/"@ + id@,
{
    let mut s = "http://sprunge.us/".to_owned();
    s.append(id);
    s
}

/// The identifier a sprunge URL names.
pub fn sprunge_id_from_url(url: &str) -> (r: Option<String>)
    ensures
        match r {
            Some(id) => spec_last_segment(url@) == Some(id@),
            None => spec_last_segment(url@) is None,
        },
{
    last_url_segment(url)
}

// ---------------------------------------------------------------------------
// hastebin
// ---------------------------------------------------------------------------
/// The identifier a hastebin URL names: the last segment with any
/// extension-like suffix after the first `.` stripped.
pub open spec fn spec_hastebin_id(s: Seq<char>) -> Option<Seq<char>> {
    match spec_last_segment(s) {
        Some(seg) => Some(seg.take(first_idx(seg, '.'))),
        None => None,
    }
}

pub fn hastebin_html_url(id: &str) -> (r: String)
    ensures
        r@ == "https://hastebin.com/"@ + id@,
{
    let mut s = "https://hastebin.com/".to_owned();
    s.append(id);
    s
}

pub fn hastebin_raw_url(id: &str) -> (r: String)
    ensures
        r@ == "https://hastebin.com/raw/"@ + id@,
{
    let mut s = "https://hastebin.com/raw/".to_owned();
    s.append(id);
    s
}

pub fn hastebin_id_from_url(url: &str) -> (r: Option<String>)
    ensures
        match r {
            Some(id) => spec_hastebin_id(url@) == Some(id@),
            None => spec_hastebin_id(url@) is None,
        },
{
    let seg = match last_url_segment(url) {
        Some(s) => s,
        None => {
            return None;
        },
    };
    let slen = seg.as_str().unicode_len();
    let mut c: usize = 0;
    while c < slen && seg.as_str().get_char(c) != '.'
        invariant
            c <= slen,
            slen == seg@.len(),
            forall|k: int| 0 <= k < c ==> seg@[k] != '.',
        decreases slen - c,
    {
        c = c + 1;
    }
    proof {
        lemma_first_idx_from_scan(seg@, '.', c as int);
    }
    let id = seg.as_str().substring_char(0, c);
    proof {
        assert(id@ =~= seg@.take(first_idx(seg@, '.')));
    }
    Some(id.to_owned())
}

// ---------------------------------------------------------------------------
// pastebin
// ---------------------------------------------------------------------------
pub fn pastebin_html_url(id: &str) -> (r: String)
    ensures
        r@ == "https://pastebin.com/"@ + id@,
{
    let mut s = "https://pastebin.com/".to_owned();
    s.append(id);
    s
}

pub fn pastebin_raw_url(id: &str) -> (r: String)
    ensures
        r@ == "https://pastebin.com/raw/"@ + id@,
{
    let mut s = "https://pastebin.com/raw/".to_owned();
    s.append(id);
    s
}

/// The identifier a pastebin URL names.
pub fn pastebin_id_from_url(url: &str) -> (r: Option<String>)
    ensures
        match r {
            Some(id) => spec_last_segment(url@) == Some(id@),
            None => spec_last_segment(url@) is None,
        },
{
    last_url_segment(url)
}

/// The rest of a path after its first segment and the slash ending it;
/// nothing when the path is a single segment.
pub open spec fn spec_after_seg(path: Seq<char>) -> Option<Seq<char>> {
    let c = first_idx(path, '/');
    if 0 <= c < path.len() {
        Some(path.skip(c + 1))
    } else {
        None
    }
}

/// The first path segment: up to the first slash, or the whole path.
pub open spec fn spec_first_seg(path: Seq<char>) -> Seq<char> {
    path.take(first_idx(path, '/'))
}

/// The last two path segments of a URL, joined by the slash between them;
/// nothing when the path has fewer than two segments.
pub open spec fn spec_last_two_segments(s: Seq<char>) -> Option<Seq<char>> {
    match spec_url_path(s) {
        Some(path) => {
            let p2 = last_idx(path, '/');
            if p2 >= 0 {
                Some(path.skip(last_idx(path.take(p2), '/') + 1))
            } else {
                None
            }
        },
        None => None,
    }
}

/// The fourth and fifth segments of a path, joined by the slash between
/// them; nothing when the path has fewer than five segments.
pub open spec fn spec_api_snippet_id(path: Seq<char>) -> Option<Seq<char>> {
    match spec_after_seg(path) {
        Some(t1) => match spec_after_seg(t1) {
            Some(t2) => match spec_after_seg(t2) {
                Some(t3) => {
                    let q = first_idx(t3, '/');
                    if 0 <= q < t3.len() {
                        Some(t3.take(q + 1 + first_idx(t3.skip(q + 1), '/')))
                    } else {
                        None
                    }
                },
                None => None,
            },
            None => None,
        },
        None => None,
    }
}

/// Strips the first segment and its slash off a path.
fn after_first_segment<'a>(path: &'a str) -> (r: Option<&'a str>)
    ensures
        match r {
            Some(t) => spec_after_seg(path@) == Some(t@),
            None => spec_after_seg(path@) is None,
        },
{
    let len = path.unicode_len();
    let mut c: usize = 0;
    while c < len && path.get_char(c) != '/'
        invariant
            c <= len,
            len == path@.len(),
            forall|k: int| 0 <= k < c ==> path@[k] != '/',
        decreases len - c,
    {
        c = c + 1;
    }
    proof {
        lemma_first_idx_from_scan(path@, '/', c as int);
    }
    if c == len {
        return None;
    }
    let t = path.substring_char(c + 1, len);
    proof {
        assert(t@ =~= path@.skip(c + 1));
    }
    Some(t)
}

// ---------------------------------------------------------------------------
// fedora pastes
// ---------------------------------------------------------------------------
pub fn fedora_html_url(id: &str) -> (r: String)
    ensures
        r@ == "https://paste.fedoraproject.org/paste/"@ + id@,
{
    let mut s = "https://paste.fedoraproject.org/paste/".to_owned();
    s.append(id);
    s
}

pub fn fedora_raw_url(id: &str) -> (r: String)
    ensures
        r@ == "https://paste.fedoraproject.org/paste/"@ + id@ + "/raw"@,
{
    let mut s = "https://paste.fedoraproject.org/paste/".to_owned();
    s.append(id);
    s.append("/raw");
    s
}

/// The identifier a fedora paste URL names: the second path segment, in the
/// display and the raw form alike.
pub fn fedora_id_from_url(url: &str) -> (r: Option<String>)
    ensures
        match r {
            Some(id) => spec_second_segment(url@) == Some(id@),
            None => spec_second_segment(url@) is None,
        },
{
    second_url_segment(url)
}

// ---------------------------------------------------------------------------
// gist (no pure URL shortcut: resolution needs the network)
// ---------------------------------------------------------------------------
/// The identifier in a gist display URL: the last path segment.
pub fn gist_id_from_html_url(url: &str) -> (r: Option<String>)
    ensures
        match r {
            Some(id) => spec_last_segment(url@) == Some(id@),
            None => spec_last_segment(url@) is None,
        },
{
    last_url_segment(url)
}

/// The identifier in a gist raw URL: the second path segment, after the
/// user name.
pub fn gist_id_from_raw_url(url: &str) -> (r: Option<String>)
    ensures
        match r {
            Some(id) => spec_second_segment(url@) == Some(id@),
            None => spec_second_segment(url@) is None,
        },
{
    second_url_segment(url)
}

// ---------------------------------------------------------------------------
// bitbucket snippets (no pure URL shortcut: resolution needs the network)
// ---------------------------------------------------------------------------
/// The identifier in a bitbucket snippet display URL: the user name and the
/// snippet id, i.e. the last two path segments joined by their slash.
pub fn bitbucket_id_from_html_url(url: &str) -> (r: Option<String>)
    ensures
        match r {
            Some(id) => spec_last_two_segments(url@) == Some(id@),
            None => spec_last_two_segments(url@) is None,
        },
{
    let path = match url_path(url) {
        Some(p) => p,
        None => {
            return None;
        },
    };
    let plen = path.as_str().unicode_len();
    let mut last: usize = 0;
    let mut prev: usize = 0;
    let mut has_last = false;
    let mut has_prev = false;
    let mut i: usize = 0;
    while i < plen
        invariant
            i <= plen,
            plen == path@.len(),
            has_prev ==> has_last,
            has_last ==> last < i && path@[last as int] == '/' && forall|k: int|
                last < k < i ==> path@[k] != '/',
            has_last && has_prev ==> prev < last && path@[prev as int] == '/' && forall|k: int|
                prev < k < last ==> path@[k] != '/',
            has_last && !has_prev ==> forall|k: int| 0 <= k < last ==> path@[k] != '/',
            !has_last ==> forall|k: int| 0 <= k < i ==> path@[k] != '/',
        decreases plen - i,
    {
        if path.as_str().get_char(i) == '/' {
            if has_last {
                prev = last;
                has_prev = true;
            }
            last = i;
            has_last = true;
        }
        i = i + 1;
    }
    if !has_last {
        proof {
            lemma_last_idx_from_scan(path@, '/', -1);
        }
        return None;
    }
    proof {
        lemma_last_idx_from_scan(path@, '/', last as int);
    }
    let ghost head = path@.take(last as int);
    let start: usize;
    if has_prev {
        start = prev + 1;
        proof {
            assert(head[prev as int] == '/');
            assert(forall|k: int| prev < k < head.len() ==> head[k] != '/');
            lemma_last_idx_from_scan(head, '/', prev as int);
        }
    } else {
        start = 0;
        proof {
            assert(forall|k: int| 0 <= k < head.len() ==> head[k] != '/');
            lemma_last_idx_from_scan(head, '/', -1);
        }
    }
    let id = path.as_str().substring_char(start, plen);
    proof {
        assert(id@ =~= path@.skip(last_idx(head, '/') + 1));
    }
    Some(id.to_owned())
}

/// The identifier in a bitbucket raw URL: for the API shape (first path
/// segment `!api`) the user and id stand as the fourth and fifth segments;
/// any other shape reads as the display form.
pub open spec fn spec_bitbucket_raw_id(s: Seq<char>) -> Option<Seq<char>> {
    match spec_url_path(s) {
        Some(path) => if spec_first_seg(path) == "!api"@ {
            spec_api_snippet_id(path)
        } else {
            spec_last_two_segments(s)
        },
        None => None,
    }
}

pub fn bitbucket_id_from_raw_url(url: &str) -> (r: Option<String>)
    ensures
        match r {
            Some(id) => spec_bitbucket_raw_id(url@) == Some(id@),
            None => spec_bitbucket_raw_id(url@) is None,
        },
{
    let path = match url_path(url) {
        Some(p) => p,
        None => {
            return None;
        },
    };
    let plen = path.as_str().unicode_len();
    let mut c: usize = 0;
    while c < plen && path.as_str().get_char(c) != '/'
        invariant
            c <= plen,
            plen == path@.len(),
            forall|k: int| 0 <= k < c ==> path@[k] != '/',
        decreases plen - c,
    {
        c = c + 1;
    }
    proof {
        lemma_first_idx_from_scan(path@, '/', c as int);
    }
    let first = path.as_str().substring_char(0, c);
    proof {
        assert(first@ =~= spec_first_seg(path@));
    }
    if !str_eq(first, "!api") {
        return bitbucket_id_from_html_url(url);
    }
    let t1 = match after_first_segment(path.as_str()) {
        Some(t) => t,
        None => {
            return None;
        },
    };
    let t2 = match after_first_segment(t1) {
        Some(t) => t,
        None => {
            return None;
        },
    };
    let t3 = match after_first_segment(t2) {
        Some(t) => t,
        None => {
            return None;
        },
    };
    let tlen = t3.unicode_len();
    let mut q: usize = 0;
    while q < tlen && t3.get_char(q) != '/'
        invariant
            q <= tlen,
            tlen == t3@.len(),
            forall|k: int| 0 <= k < q ==> t3@[k] != '/',
        decreases tlen - q,
    {
        q = q + 1;
    }
    proof {
        lemma_first_idx_from_scan(t3@, '/', q as int);
    }
    if q == tlen {
        return None;
    }
    let t4 = t3.substring_char(q + 1, tlen);
    proof {
        assert(t4@ =~= t3@.skip(q + 1));
    }
    let t4len = t4.unicode_len();
    let mut q2: usize = 0;
    while q2 < t4len && t4.get_char(q2) != '/'
        invariant
            q2 <= t4len,
            t4len == t4@.len(),
            forall|k: int| 0 <= k < q2 ==> t4@[k] != '/',
        decreases t4len - q2,
    {
        q2 = q2 + 1;
    }
    proof {
        lemma_first_idx_from_scan(t4@, '/', q2 as int);
    }
    let id = t3.substring_char(0, q + 1 + q2);
    proof {
        assert(id@ =~= t3@.take(q + 1 + first_idx(t3@.skip(q + 1), '/')));
    }
    Some(id.to_owned())
}

// ---------------------------------------------------------------------------
// paste.gg (no pure URL shortcut: resolution needs the network)
// ---------------------------------------------------------------------------
/// The identifier in a paste.gg display URL: the last path segment.
pub fn pastegg_id_from_html_url(url: &str) -> (r: Option<String>)
    ensures
        match r {
            Some(id) => spec_last_segment(url@) == Some(id@),
            None => spec_last_segment(url@) is None,
        },
{
    last_url_segment(url)
}

/// The identifier in a paste.gg raw URL: a single-segment path is the
/// identifier itself, otherwise the second segment.
pub open spec fn spec_pastegg_raw_id(s: Seq<char>) -> Option<Seq<char>> {
    match spec_url_path(s) {
        Some(path) => {
            let p1 = first_idx(path, '/');
            if 0 <= p1 < path.len() {
                let tail = path.skip(p1 + 1);
                Some(tail.take(first_idx(tail, '/')))
            } else {
                Some(path)
            }
        },
        None => None,
    }
}

pub fn pastegg_id_from_raw_url(url: &str) -> (r: Option<String>)
    ensures
        match r {
            Some(id) => spec_pastegg_raw_id(url@) == Some(id@),
            None => spec_pastegg_raw_id(url@) is None,
        },
{
    let path = match url_path(url) {
        Some(p) => p,
        None => {
            return None;
        },
    };
    let plen = path.as_str().unicode_len();
    let mut p1: usize = 0;
    while p1 < plen && path.as_str().get_char(p1) != '/'
        invariant
            p1 <= plen,
            plen == path@.len(),
            forall|k: int| 0 <= k < p1 ==> path@[k] != '/',
        decreases plen - p1,
    {
        p1 = p1 + 1;
    }
    proof {
        lemma_first_idx_from_scan(path@, '/', p1 as int);
    }
    if p1 == plen {
        return Some(path);
    }
    let tail = path.as_str().substring_char(p1 + 1, plen);
    proof {
        assert(tail@ =~= path@.skip(p1 + 1));
    }
    let tlen = tail.unicode_len();
    let mut q: usize = 0;
    while q < tlen && tail.get_char(q) != '/'
        invariant
            q <= tlen,
            tlen == tail@.len(),
            forall|k: int| 0 <= k < q ==> tail@[k] != '/',
        decreases tlen - q,
    {
        q = q + 1;
    }
    proof {
        lemma_first_idx_from_scan(tail@, '/', q as int);
    }
    let id = tail.substring_char(0, q);
    proof {
        assert(id@ =~= path@.skip(p1 + 1).take(first_idx(path@.skip(p1 + 1), '/')));
    }
    Some(id.to_owned())
}

// ---------------------------------------------------------------------------
// Round trips
// ---------------------------------------------------------------------------
/// An identifier free of the characters the parser treats as separators.
pub open spec fn plain_id(id: Seq<char>) -> bool {
    forall|k: int|
        0 <= k < id.len() ==> id[k] != '/' && id[k] != '?' && id[k] != '#'
}

proof fn lemma_prefix_round_trip(prefix: Seq<char>, id: Seq<char>, sl: int)
    requires
        (sl == 7 && starts_with(prefix, "http://"@)) || (sl == 8 && starts_with(
            prefix,
            "https://"@,
        )),
        sl == 7 ==> !starts_with(prefix, "https://"@),
        prefix.len() > sl,
        prefix.last() == '/',
        forall|k: int| 0 <= k < prefix.len() ==> prefix[k] != '?' && prefix[k] != '#',
        plain_id(id),
    ensures
        spec_last_segment(prefix + id) == Some(id),
{
    reveal_strlit("http://");
    reveal_strlit("https://");
    assert("http://"@.len() == 7);
    assert("https://"@.len() == 8);
    let s = prefix + id;
    let n = prefix.len() as int;
    assert forall|k: int| 0 <= k < s.len() implies #[trigger] s[k] != '?' && s[k] != '#' by {
        if k >= n {
            assert(s[k] == id[k - n]);
        }
    }
    lemma_cut_from_scan(s, s.len() as int);
    let cut = s.take(s.len() as int);
    assert(cut =~= s);
    // the scheme carries over from the prefix
    assert(cut.take(sl) =~= prefix.take(sl));
    if sl == 8 {
        assert(starts_with(cut, "https://"@));
    } else {
        assert(starts_with(cut, "http://"@));
        // the prefix is not also an https one
        if starts_with(cut, "https://"@) {
            assert(prefix.take(8int) =~= cut.take(8int));
            assert(starts_with(prefix, "https://"@));
        }
    }
    let rest = cut.skip(sl);
    assert(rest[n - 1 - sl] == prefix[n - 1]);
    assert forall|k: int| n - 1 - sl < k < rest.len() implies #[trigger] rest[k] != '/' by {
        assert(rest[k] == s[k + sl]);
        assert(s[k + sl] == id[k + sl - n]);
    }
    lemma_last_idx_from_scan(rest, '/', n - 1 - sl);
    assert(has_char(rest, '/')) by {
        assert(rest[n - 1 - sl] == '/');
    }
    assert(rest.skip(n - sl) =~= id);
}

/// Round trip for sprunge: parsing the formatted URL recovers the id.
pub proof fn lemma_sprunge_round_trip(id: Seq<char>)
    requires
        plain_id(id),
    ensures
        spec_last_segment("http://sprunge.us/"@ + id) == Some(id),
{
    reveal_strlit("http://sprunge.us/");
    reveal_strlit("http://");
    reveal_strlit("https://");
    let p = "http://sprunge.us/"@;
    assert(p.take(7int) =~= "http://"@);
    assert(!starts_with(p, "https://"@)) by {
        if starts_with(p, "https://"@) {
            assert(p.take(8int)[4] == 's');
        }
    }
    lemma_prefix_round_trip(p, id, 7);
}

/// Round trip for pastebin's display URLs.
pub proof fn lemma_pastebin_html_round_trip(id: Seq<char>)
    requires
        plain_id(id),
    ensures
        spec_last_segment("https://pastebin.com/"@ + id) == Some(id),
{
    reveal_strlit("https://pastebin.com/");
    reveal_strlit("https://");
    let p = "https://pastebin.com/"@;
    assert(p.take(8int) =~= "https://"@);
    lemma_prefix_round_trip(p, id, 8);
}

/// Round trip for pastebin's raw URLs.
pub proof fn lemma_pastebin_raw_round_trip(id: Seq<char>)
    requires
        plain_id(id),
    ensures
        spec_last_segment("https://pastebin.com/raw/"@ + id) == Some(id),
{
    reveal_strlit("https://pastebin.com/raw/");
    reveal_strlit("https://");
    let p = "https://pastebin.com/raw/"@;
    assert(p.take(8int) =~= "https://"@);
    lemma_prefix_round_trip(p, id, 8);
}

/// Round trip for hastebin's display URLs; the id must also be free of `.`,
/// which the parser treats as the start of an extension.
pub proof fn lemma_hastebin_html_round_trip(id: Seq<char>)
    requires
        plain_id(id),
        forall|k: int| 0 <= k < id.len() ==> id[k] != '.',
    ensures
        spec_hastebin_id("https://hastebin.com/"@ + id) == Some(id),
{
    reveal_strlit("https://hastebin.com/");
    reveal_strlit("https://");
    let p = "https://hastebin.com/"@;
    assert(p.take(8int) =~= "https://"@);
    lemma_prefix_round_trip(p, id, 8);
    lemma_first_idx_from_scan(id, '.', id.len() as int);
    assert(id.take(id.len() as int) =~= id);
}

proof fn lemma_fedora_path(tail: Seq<char>)
    requires
        forall|k: int| 0 <= k < tail.len() ==> tail[k] != '?' && tail[k] != '#',
    ensures
        spec_url_path("https://paste.fedoraproject.org/paste/"@ + tail) == Some("paste/"@ + tail),
{
    reveal_strlit("https://paste.fedoraproject.org/paste/");
    reveal_strlit("https://");
    reveal_strlit("paste/");
    let p = "https://paste.fedoraproject.org/paste/"@;
    assert(p.len() == 38);
    let s = p + tail;
    assert forall|k: int| 0 <= k < s.len() implies #[trigger] s[k] != '?' && s[k] != '#' by {
        if k >= 38 {
            assert(s[k] == tail[k - 38]);
        }
    }
    lemma_cut_from_scan(s, s.len() as int);
    let cut = s.take(s.len() as int);
    assert(cut =~= s);
    assert(cut.take(8int) =~= "https://"@);
    let rest = cut.skip(8);
    assert forall|k: int| 0 <= k < 23 implies #[trigger] rest[k] != '/' by {
        assert(rest[k] == p[k + 8]);
    }
    assert(rest[23] == p[31]);
    lemma_first_idx_from_scan(rest, '/', 23);
    assert(has_char(rest, '/')) by {
        assert(rest[23] == '/');
    }
    assert(rest.skip(24) =~= "paste/"@ + tail);
}

/// Round trip for fedora's display URLs.
pub proof fn lemma_fedora_html_round_trip(id: Seq<char>)
    requires
        plain_id(id),
    ensures
        spec_second_segment("https://paste.fedoraproject.org/paste/"@ + id) == Some(id),
{
    reveal_strlit("paste/");
    lemma_fedora_path(id);
    let path = "paste/"@ + id;
    assert forall|k: int| 0 <= k < 5 implies #[trigger] path[k] != '/' by {
        assert(path[k] == "paste/"@[k]);
    }
    assert(path[5] == '/');
    lemma_first_idx_from_scan(path, '/', 5);
    let tail = path.skip(6);
    assert(tail =~= id);
    lemma_first_idx_from_scan(id, '/', id.len() as int);
    assert(tail.take(first_idx(tail, '/')) =~= id);
}

/// Round trip for fedora's raw URLs.
pub proof fn lemma_fedora_raw_round_trip(id: Seq<char>)
    requires
        plain_id(id),
    ensures
        spec_second_segment("https://paste.fedoraproject.org/paste/"@ + id + "/raw"@) == Some(id),
{
    reveal_strlit("paste/");
    reveal_strlit("/raw");
    let suffix = id + "/raw"@;
    assert forall|k: int| 0 <= k < suffix.len() implies suffix[k] != '?' && suffix[k] != '#' by {
        if k >= id.len() {
            assert(suffix[k] == "/raw"@[k - id.len()]);
        }
    }
    lemma_fedora_path(suffix);
    assert("https://paste.fedoraproject.org/paste/"@ + id + "/raw"@
        =~= "https://paste.fedoraproject.org/paste/"@ + suffix);
    let path = "paste/"@ + suffix;
    assert forall|k: int| 0 <= k < 5 implies #[trigger] path[k] != '/' by {
        assert(path[k] == "paste/"@[k]);
    }
    assert(path[5] == '/');
    lemma_first_idx_from_scan(path, '/', 5);
    let tail = path.skip(6);
    assert(tail =~= suffix);
    assert forall|k: int| 0 <= k < id.len() implies #[trigger] tail[k] != '/' by {
        assert(tail[k] == id[k]);
    }
    assert(tail[id.len() as int] == '/');
    lemma_first_idx_from_scan(tail, '/', id.len() as int);
    assert(tail.take(id.len() as int) =~= id);
}

/// Round trip for hastebin's raw URLs, under the same restriction.
pub proof fn lemma_hastebin_raw_round_trip(id: Seq<char>)
    requires
        plain_id(id),
        forall|k: int| 0 <= k < id.len() ==> id[k] != '.',
    ensures
        spec_hastebin_id("https://hastebin.com/raw/"@ + id) == Some(id),
{
    reveal_strlit("https://hastebin.com/raw/");
    reveal_strlit("https://");
    let p = "https://hastebin.com/raw/"@;
    assert(p.take(8int) =~= "https://"@);
    lemma_prefix_round_trip(p, id, 8);
    lemma_first_idx_from_scan(id, '.', id.len() as int);
    assert(id.take(id.len() as int) =~= id);
}

} // verus!
