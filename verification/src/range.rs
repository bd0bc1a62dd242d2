//! The range selector: inclusive integer ranges that may run forward or
//! backward, parsed from user-written tokens and used to pick download
//! positions.

use vstd::prelude::*;
use vstd::string::StrSliceExecFns;
use crate::error::BinsError;
use crate::strutil::{is_number, digits_val, parse_number};

verus! {

/// The index of the first occurrence of `ch` in `s`, or `s.len()` when there
/// is none.
pub open spec fn first_idx(s: Seq<char>, ch: char) -> int
    decreases s.len(),
{
    if s.len() == 0 {
        0
    } else if s[0] == ch {
        0
    } else {
        1 + first_idx(s.drop_first(), ch)
    }
}

/// Whether `ch` occurs in `s`.
pub open spec fn has_char(s: Seq<char>, ch: char) -> bool {
    exists|k: int| 0 <= k < s.len() && s[k] == ch
}

/// A left-to-right scan that stops at `d` finds the first occurrence.
pub proof fn lemma_first_idx_from_scan(s: Seq<char>, ch: char, d: int)
    requires
        0 <= d <= s.len(),
        forall|k: int| 0 <= k < d ==> s[k] != ch,
        d < s.len() ==> s[d] == ch,
    ensures
        first_idx(s, ch) == d,
    decreases d,
{
    if d == 0 {
    } else {
        assert(forall|k: int| 0 <= k < d - 1 ==> s.drop_first()[k] != ch);
        lemma_first_idx_from_scan(s.drop_first(), ch, d - 1);
    }
}

/// An inclusive range over 1-based positions that may run in ascending or
/// descending direction; `start == end` names exactly one position.
#[derive(Debug, Clone, Copy, PartialEq, Eq, Structural)]
pub struct BidirectionalRange {
    pub start: usize,
    pub end: usize,
}

/// Whether a number token names a value a `usize` can hold.
pub open spec fn number_fits(s: Seq<char>) -> bool {
    is_number(s) && digits_val(s) <= usize::MAX
}

/// Exactly what `BidirectionalRange::parse_usize` returns for the token `s`:
/// a bare number `N` gives the singleton range `[N, N]`; `A-B` gives the
/// inclusive range from `A` to `B` in the stated direction; more than two
/// dash-separated components are refused outright, and a component that is
/// not a number (or does not fit a `usize`) is reported back.
pub open spec fn parse_usize_post(
    s: Seq<char>,
    r: Result<BidirectionalRange, BinsError>,
) -> bool {
    let d = first_idx(s, '-');
    if d == s.len() {
        match r {
            Ok(rng) => number_fits(s) && rng.start == digits_val(s) && rng.end == rng.start,
            Err(BinsError::BadRangeNumber(t)) => !number_fits(s) && t@ == s,
            Err(_) => false,
        }
    } else {
        let fst = s.take(d);
        let snd = s.skip(d + 1);
        if has_char(snd, '-') {
            r == Err::<BidirectionalRange, BinsError>(BinsError::BadRange)
        } else {
            match r {
                Ok(rng) => number_fits(fst) && number_fits(snd) && rng.start == digits_val(fst)
                    && rng.end == digits_val(snd),
                Err(BinsError::BadRangeNumber(t)) => (!number_fits(fst) && t@ == fst) || (
                number_fits(fst) && !number_fits(snd) && t@ == snd),
                Err(_) => false,
            }
        }
    }
}

impl BidirectionalRange {
    pub fn new(start: usize, end: usize) -> (r: Self)
        ensures
            r.start == start,
            r.end == end,
    {
        BidirectionalRange { start, end }
    }

    /// Direction-aware membership: `x` lies between `start` and `end`
    /// inclusive.
    pub open spec fn spec_contains(self, x: int) -> bool {
        if self.start <= self.end {
            self.start <= x <= self.end
        } else {
            self.end <= x <= self.start
        }
    }

    pub fn contains(&self, item: usize) -> (r: bool)
        ensures
            r == self.spec_contains(item as int),
    {
        if self.start <= self.end {
            self.start <= item && item <= self.end
        } else {
            self.end <= item && item <= self.start
        }
    }

    /// The positions this range enumerates, endpoints inclusive, in its
    /// stated direction.
    pub open spec fn spec_indices(self) -> Seq<usize> {
        if self.start <= self.end {
            Seq::new((self.end - self.start + 1) as nat, |i: int| (self.start + i) as usize)
        } else {
            Seq::new((self.start - self.end + 1) as nat, |i: int| (self.start - i) as usize)
        }
    }

    /// Enumerates the range into a vector.
    pub fn indices(&self) -> (r: Vec<usize>)
        ensures
            r@ == self.spec_indices(),
    {
        let mut out: Vec<usize> = Vec::new();
        if self.start <= self.end {
            let mut i: usize = self.start;
            loop
                invariant_except_break
                    self.start <= i <= self.end,
                    out@ =~= self.spec_indices().take(i - self.start),
                ensures
                    out@ == self.spec_indices(),
                decreases self.end - i,
            {
                out.push(i);
                proof {
                    assert(out@ =~= self.spec_indices().take(i + 1 - self.start));
                }
                if i == self.end {
                    proof {
                        assert(out@ =~= self.spec_indices());
                    }
                    break;
                }
                i = i + 1;
            }
        } else {
            let mut i: usize = self.start;
            loop
                invariant_except_break
                    self.end <= i <= self.start,
                    out@ =~= self.spec_indices().take(self.start - i),
                ensures
                    out@ == self.spec_indices(),
                decreases i - self.end,
            {
                out.push(i);
                proof {
                    assert(out@ =~= self.spec_indices().take(self.start - i + 1));
                }
                if i == self.end {
                    proof {
                        assert(out@ =~= self.spec_indices());
                    }
                    break;
                }
                i = i - 1;
            }
        }
        out
    }

    /// Parses one range token: `N`, or `A-B` in either direction.
    pub fn parse_usize(string: &str) -> (r: Result<BidirectionalRange, BinsError>)
        ensures
            parse_usize_post(string@, r),
    {
        let len = string.unicode_len();
        let mut d: usize = 0;
        while d < len && string.get_char(d) != '-'
            invariant
                d <= len,
                len == string@.len(),
                forall|k: int| 0 <= k < d ==> string@[k] != '-',
            decreases len - d,
        {
            d = d + 1;
        }
        proof {
            lemma_first_idx_from_scan(string@, '-', d as int);
        }
        if d == len {
            match parse_number(string) {
                Some(v) => Ok(BidirectionalRange::new(v, v)),
                None => Err(BinsError::BadRangeNumber(string.to_owned())),
            }
        } else {
            let mut j: usize = d + 1;
            while j < len && string.get_char(j) != '-'
                invariant
                    d < j <= len,
                    len == string@.len(),
                    forall|k: int| d < k < j ==> string@[k] != '-',
                decreases len - j,
            {
                j = j + 1;
            }
            if j < len {
                proof {
                    assert(string@.skip(d + 1)[j - d - 1] == '-');
                }
                return Err(BinsError::BadRange);
            }
            proof {
                assert forall|k: int| 0 <= k < string@.skip(d + 1).len() implies #[trigger] string@
                    .skip(d + 1)[k] != '-' by {
                    assert(string@.skip(d + 1)[k] == string@[k + d + 1]);
                }
            }
            let fst = string.substring_char(0, d);
            let snd = string.substring_char(d + 1, len);
            proof {
                assert(fst@ =~= string@.take(d as int));
                assert(snd@ =~= string@.skip(d + 1));
            }
            let a = match parse_number(fst) {
                Some(v) => v,
                None => {
                    return Err(BinsError::BadRangeNumber(fst.to_owned()));
                },
            };
            let b = match parse_number(snd) {
                Some(v) => v,
                None => {
                    return Err(BinsError::BadRangeNumber(snd.to_owned()));
                },
            };
            Ok(BidirectionalRange::new(a, b))
        }
    }
}

/// The comma-separated tokens of a selector string, in writing order; an
/// absent comma means one token, so the empty string holds one empty token.
pub open spec fn split_commas(s: Seq<char>) -> Seq<Seq<char>>
    decreases s.len(),
{
    let c = first_idx(s, ',');
    if 0 <= c < s.len() {
        seq![s.take(c)] + split_commas(s.skip(c + 1))
    } else {
        seq![s]
    }
}

/// Whether a token parses as some range.
pub open spec fn token_parses(t: Seq<char>) -> bool {
    exists|rng: BidirectionalRange| parse_usize_post(t, Ok(rng))
}

/// Exactly what `parse_range_list` returns: every token parsed in writing
/// order, or the error of the first token that does not parse.
pub open spec fn parse_list_post(
    s: Seq<char>,
    r: Result<Vec<BidirectionalRange>, BinsError>,
) -> bool {
    let toks = split_commas(s);
    match r {
        Ok(v) => v@.len() == toks.len() && (forall|k: int|
            0 <= k < toks.len() ==> parse_usize_post(#[trigger] toks[k], Ok(v@[k]))),
        Err(e) => exists|k: int|
            0 <= k < toks.len() && parse_usize_post(#[trigger] toks[k], Err(e)) && (forall|j: int|
                0 <= j < k ==> token_parses(#[trigger] toks[j])),
    }
}

/// Parses a comma-separated list of range tokens, evaluated in the order
/// they were written.
pub fn parse_range_list(string: &str) -> (r: Result<Vec<BidirectionalRange>, BinsError>)
    ensures
        parse_list_post(string@, r),
{
    let ghost s = string@;
    let len = string.unicode_len();
    let mut out: Vec<BidirectionalRange> = Vec::new();
    let ghost mut done: Seq<Seq<char>> = Seq::empty();
    let mut start: usize = 0;
    proof {
        assert(s.skip(0) =~= s);
        assert(done + split_commas(s) =~= split_commas(s));
    }
    loop
        invariant_except_break
            s == string@,
            start <= len,
            len == s.len(),
            split_commas(s) == done + split_commas(s.skip(start as int)),
            out@.len() == done.len(),
            forall|k: int| 0 <= k < done.len() ==> parse_usize_post(#[trigger] done[k], Ok(out@[k])),
        ensures
            out@.len() == split_commas(s).len(),
            forall|k: int|
                0 <= k < split_commas(s).len() ==> parse_usize_post(
                    #[trigger] split_commas(s)[k],
                    Ok(out@[k]),
                ),
        decreases len - start,
    {
        let mut c: usize = start;
        while c < len && string.get_char(c) != ','
            invariant
                s == string@,
                len == s.len(),
                start <= c <= len,
                forall|k: int| start <= k < c ==> s[k] != ',',
            decreases len - c,
        {
            c = c + 1;
        }
        let ghost rest = s.skip(start as int);
        proof {
            assert forall|k: int| 0 <= k < c - start implies rest[k] != ',' by {
                assert(rest[k] == s[k + start]);
            }
            lemma_first_idx_from_scan(rest, ',', c - start);
        }
        let token = string.substring_char(start, c);
        proof {
            assert(token@ =~= rest.take(c - start));
        }
        match BidirectionalRange::parse_usize(token) {
            Ok(rng) => {
                out.push(rng);
                proof {
                    done = done.push(token@);
                }
            },
            Err(e) => {
                proof {
                    let toks = split_commas(s);
                    let k = done.len() as int;
                    assert(toks == done + split_commas(rest));
                    if c < len {
                        assert(split_commas(rest) == seq![rest.take(c - start)] + split_commas(
                            rest.skip(c - start + 1)));
                    } else {
                        assert(split_commas(rest) =~= seq![rest]);
                        assert(rest =~= token@);
                    }
                    assert(split_commas(rest).len() >= 1);
                    assert(toks.len() > k);
                    assert(toks[k] == token@);
                    assert(parse_usize_post(toks[k], Err::<BidirectionalRange, BinsError>(e)));
                    assert forall|j: int| 0 <= j < k implies token_parses(#[trigger] toks[j]) by {
                        assert(toks[j] == done[j]);
                        assert(parse_usize_post(toks[j], Ok(out@[j])));
                    }
                }
                return Err(e);
            },
        }
        if c == len {
            proof {
                assert(split_commas(rest) =~= seq![rest]);
                assert(rest =~= token@);
                assert(split_commas(s) =~= done);
            }
            break;
        }
        proof {
            assert(split_commas(rest) == seq![rest.take(c - start)] + split_commas(
                rest.skip(c - start + 1)));
            assert(rest.skip(c - start + 1) =~= s.skip(c + 1));
            assert(split_commas(s) =~= done + split_commas(s.skip(c + 1)));
        }
        start = c + 1;
    }
    Ok(out)
}

/// The flat ordered position sequence of a range list: each range's
/// enumeration, concatenated in list order, repeats kept.
pub open spec fn flatten_ranges(rs: Seq<BidirectionalRange>) -> Seq<usize>
    decreases rs.len(),
{
    if rs.len() == 0 {
        Seq::empty()
    } else {
        flatten_ranges(rs.drop_last()) + rs.last().spec_indices()
    }
}

/// Enumerates a range list into its flat ordered position sequence.
pub fn flatten_range_list(rs: &Vec<BidirectionalRange>) -> (r: Vec<usize>)
    ensures
        r@ == flatten_ranges(rs@),
{
    let mut out: Vec<usize> = Vec::new();
    let mut i: usize = 0;
    while i < rs.len()
        invariant
            i <= rs@.len(),
            out@ == flatten_ranges(rs@.take(i as int)),
        decreases rs@.len() - i,
    {
        let mut part = rs[i].indices();
        let ghost prev = out@;
        let mut k: usize = 0;
        while k < part.len()
            invariant
                k <= part@.len(),
                part@ == rs@[i as int].spec_indices(),
                out@ =~= prev + part@.take(k as int),
            decreases part@.len() - k,
        {
            out.push(part[k]);
            k = k + 1;
        }
        proof {
            assert(rs@.take(i + 1).drop_last() =~= rs@.take(i as int));
            assert(out@ =~= flatten_ranges(rs@.take(i + 1)));
        }
        i = i + 1;
    }
    proof {
        assert(rs@.take(rs@.len() as int) =~= rs@);
    }
    out
}

/// Membership of a position in any range of a list; independent of
/// enumeration, but agreeing with it.
pub trait AnyContains {
    spec fn spec_any_contains(&self, i: int) -> bool;

    fn any_contains(&self, i: usize) -> (r: bool)
        ensures
            r == self.spec_any_contains(i as int),
    ;
}

impl AnyContains for Vec<BidirectionalRange> {
    open spec fn spec_any_contains(&self, i: int) -> bool {
        exists|k: int| 0 <= k < self@.len() && #[trigger] self@[k].spec_contains(i)
    }

    fn any_contains(&self, i: usize) -> (r: bool) {
        let mut k: usize = 0;
        while k < self.len()
            invariant
                k <= self@.len(),
                forall|j: int| 0 <= j < k ==> !#[trigger] self@[j].spec_contains(i as int),
            decreases self@.len() - k,
        {
            if self[k].contains(i) {
                return true;
            }
            k = k + 1;
        }
        false
    }
}

/// Membership agrees with enumeration: a position is contained in a range
/// exactly when the range's enumeration lists it.
pub proof fn lemma_contains_agrees_with_indices(rng: BidirectionalRange, x: usize)
    ensures
        rng.spec_contains(x as int) <==> rng.spec_indices().contains(x),
{
    if rng.spec_contains(x as int) {
        if rng.start <= rng.end {
            assert(rng.spec_indices()[x - rng.start] == x);
        } else {
            assert(rng.spec_indices()[rng.start - x] == x);
        }
    }
}

} // verus!
