use vstd::prelude::*;
use vstd::string::StrSliceExecFns;
use vstd::string::StringExecFns;

use crate::digits::{dec_digits, digit_char};

verus! {

// --- substring search ---

/// Whether `pat` occurs in `s` starting at index `i`.
pub open spec fn match_at(s: Seq<char>, pat: Seq<char>, i: int) -> bool {
    0 <= i && i + pat.len() <= s.len() && s.subrange(i, i + pat.len()) == pat
}

/// Index of the first occurrence of `pat` in `s`, or -1 when absent.
pub open spec fn first_match(s: Seq<char>, pat: Seq<char>) -> int
    decreases s.len(),
{
    if pat.len() == 0 {
        0
    } else if s.len() < pat.len() {
        -1
    } else if s.take(pat.len() as int) == pat {
        0
    } else {
        let r = first_match(s.drop_first(), pat);
        if r == -1 {
            -1
        } else {
            r + 1
        }
    }
}

pub proof fn lemma_first_match(s: Seq<char>, pat: Seq<char>)
    ensures
        first_match(s, pat) == -1 ==> forall|i: int| !match_at(s, pat, i),
        first_match(s, pat) != -1 ==> match_at(s, pat, first_match(s, pat)) && forall|i: int|
            0 <= i < first_match(s, pat) ==> !match_at(s, pat, i),
    decreases s.len(),
{
    if pat.len() == 0 {
        assert(s.subrange(0, 0) =~= pat);
    } else if s.len() < pat.len() {
    } else if s.take(pat.len() as int) == pat {
        assert(s.subrange(0, pat.len() as int) =~= s.take(pat.len() as int));
    } else {
        let t = s.drop_first();
        lemma_first_match(t, pat);
        assert(s.subrange(0, pat.len() as int) =~= s.take(pat.len() as int));
        assert forall|i: int| 1 <= i && i + pat.len() <= s.len() implies (match_at(s, pat, i)
            <==> match_at(t, pat, i - 1)) by {
            assert(t.subrange(i - 1, i - 1 + pat.len()) =~= s.subrange(i, i + pat.len()));
        }
        let r = first_match(t, pat);
        if r == -1 {
            assert forall|i: int| !match_at(s, pat, i) by {
                if 1 <= i && i + pat.len() <= s.len() {
                    assert(!match_at(t, pat, i - 1));
                }
            }
        } else {
            assert(match_at(t, pat, r));
            assert(t.subrange(r, r + pat.len()) =~= s.subrange(r + 1, r + 1 + pat.len()));
            assert(match_at(s, pat, r + 1));
            assert forall|i: int| 0 <= i < r + 1 implies !match_at(s, pat, i) by {
                if i >= 1 {
                    assert(!match_at(t, pat, i - 1));
                }
            }
        }
    }
}

/// Finds the first occurrence of `pat` in `s`.
pub fn find_sub(s: &str, pat: &str) -> (r: Option<usize>)
    ensures
        match r {
            Some(i) => i == first_match(s@, pat@),
            None => first_match(s@, pat@) == -1,
        },
{
    let n = s.unicode_len();
    let m = pat.unicode_len();
    if m == 0 {
        return Some(0);
    }
    if m > n {
        return None;
    }
    let mut i: usize = 0;
    while i <= n - m
        invariant
            1 <= m <= n,
            n == s@.len(),
            m == pat@.len(),
            i <= n - m + 1,
            forall|j: int| 0 <= j < i ==> !match_at(s@, pat@, j),
        decreases n - m - i + 1,
    {
        let mut k: usize = 0;
        let mut ok = true;
        while ok && k < m
            invariant
                k <= m,
                i + m <= n,
                n == s@.len(),
                m == pat@.len(),
                ok ==> forall|l: int| 0 <= l < k ==> s@[i + l] == pat@[l],
                !ok ==> !match_at(s@, pat@, i as int),
            decreases m - k, (if ok { 1int } else { 0int }),
        {
            if s.get_char(i + k) == pat.get_char(k) {
                k = k + 1;
            } else {
                proof {
                    assert(s@.subrange(i as int, i + pat@.len())[k as int] == s@[i + k]);
                }
                ok = false;
            }
        }
        if ok {
            proof {
                assert(s@.subrange(i as int, i + pat@.len()) =~= pat@);
                assert(match_at(s@, pat@, i as int));
                lemma_first_match(s@, pat@);
                let f = first_match(s@, pat@);
                assert(f != -1);
                if f < i as int {
                    assert(!match_at(s@, pat@, f));
                }
            }
            return Some(i);
        }
        i = i + 1;
    }
    proof {
        lemma_first_match(s@, pat@);
        let f = first_match(s@, pat@);
        if f != -1 {
            assert(match_at(s@, pat@, f));
            assert(f < i);
        }
    }
    None
}

// --- trimming ---

/// Characters the id segment is stripped of.
pub open spec fn slash_pred() -> spec_fn(char) -> bool {
    |c: char| c == '/'
}

/// The whitespace a title is stripped of.
pub open spec fn space_pred() -> spec_fn(char) -> bool {
    |c: char| c == ' ' || c == '\t' || c == '\n' || c == '\r'
}

/// Index of the first character `p` does not strip, or -1 when all are
/// stripped.
pub open spec fn first_keep(s: Seq<char>, p: spec_fn(char) -> bool) -> int
    decreases s.len(),
{
    if s.len() == 0 {
        -1
    } else if !p(s[0]) {
        0
    } else {
        let r = first_keep(s.drop_first(), p);
        if r == -1 {
            -1
        } else {
            r + 1
        }
    }
}

/// Index of the last character `p` does not strip, or -1 when all are
/// stripped.
pub open spec fn last_keep(s: Seq<char>, p: spec_fn(char) -> bool) -> int
    decreases s.len(),
{
    if s.len() == 0 {
        -1
    } else if !p(s.last()) {
        s.len() - 1
    } else {
        last_keep(s.drop_last(), p)
    }
}

/// `s` with every stripped character removed from both ends.
pub open spec fn trim_by(s: Seq<char>, p: spec_fn(char) -> bool) -> Seq<char> {
    let a = first_keep(s, p);
    let b = last_keep(s, p);
    if a == -1 {
        Seq::<char>::empty()
    } else {
        s.subrange(a, b + 1)
    }
}

pub proof fn lemma_first_keep(s: Seq<char>, p: spec_fn(char) -> bool)
    ensures
        first_keep(s, p) == -1 ==> forall|j: int| 0 <= j < s.len() ==> p(s[j]),
        first_keep(s, p) != -1 ==> 0 <= first_keep(s, p) < s.len() && !p(s[first_keep(s, p)])
            && forall|j: int| 0 <= j < first_keep(s, p) ==> p(s[j]),
    decreases s.len(),
{
    if s.len() == 0 {
    } else if !p(s[0]) {
    } else {
        lemma_first_keep(s.drop_first(), p);
        let t = s.drop_first();
        let r = first_keep(t, p);
        if r == -1 {
            assert forall|j: int| 0 <= j < s.len() implies p(s[j]) by {
                if j > 0 {
                    assert(t[j - 1] == s[j]);
                }
            }
        } else {
            assert(t[r] == s[r + 1]);
            assert forall|j: int| 0 <= j < r + 1 implies p(s[j]) by {
                if j > 0 {
                    assert(t[j - 1] == s[j]);
                }
            }
        }
    }
}

pub proof fn lemma_last_keep(s: Seq<char>, p: spec_fn(char) -> bool)
    ensures
        last_keep(s, p) == -1 ==> forall|j: int| 0 <= j < s.len() ==> p(s[j]),
        last_keep(s, p) != -1 ==> 0 <= last_keep(s, p) < s.len() && !p(s[last_keep(s, p)])
            && forall|j: int| last_keep(s, p) < j < s.len() ==> p(s[j]),
    decreases s.len(),
{
    if s.len() == 0 {
    } else if !p(s.last()) {
    } else {
        lemma_last_keep(s.drop_last(), p);
        let t = s.drop_last();
        let r = last_keep(t, p);
        if r == -1 {
            assert forall|j: int| 0 <= j < s.len() implies p(s[j]) by {
                if j < s.len() - 1 {
                    assert(t[j] == s[j]);
                }
            }
        } else {
            assert(t[r] == s[r]);
            assert forall|j: int| r < j < s.len() implies p(s[j]) by {
                if j < s.len() - 1 {
                    assert(t[j] == s[j]);
                }
            }
        }
    }
}

/// Strips leading and trailing `/` characters.
pub fn trim_slashes(s: &str) -> (r: String)
    ensures
        r@ == trim_by(s@, slash_pred()),
{
    trim_exec(s, true)
}

/// Strips leading and trailing ASCII whitespace.
pub fn trim_spaces(s: &str) -> (r: String)
    ensures
        r@ == trim_by(s@, space_pred()),
{
    trim_exec(s, false)
}

fn strips(c: char, slashes: bool) -> (r: bool)
    ensures
        r == (if slashes {
            slash_pred()(c)
        } else {
            space_pred()(c)
        }),
{
    if slashes {
        c == '/'
    } else {
        c == ' ' || c == '\t' || c == '\n' || c == '\r'
    }
}

fn trim_exec(s: &str, slashes: bool) -> (r: String)
    ensures
        r@ == trim_by(s@, (if slashes { slash_pred() } else { space_pred() })),
{
    let ghost p = (if slashes {
        slash_pred()
    } else {
        space_pred()
    });
    proof {
        lemma_first_keep(s@, p);
        lemma_last_keep(s@, p);
    }
    let n = s.unicode_len();
    let mut a: usize = 0;
    let mut scanning = true;
    while scanning
        invariant
            p == (if slashes { slash_pred() } else { space_pred() }),
            n == s@.len(),
            a <= n,
            forall|j: int| 0 <= j < a ==> p(s@[j]),
            !scanning ==> (a == n || !p(s@[a as int])),
        decreases n - a, (if scanning { 1int } else { 0int }),
    {
        if a < n {
            if strips(s.get_char(a), slashes) {
                a = a + 1;
            } else {
                scanning = false;
            }
        } else {
            scanning = false;
        }
    }
    if a == n {
        proof {
            if first_keep(s@, p) != -1 {
                assert(p(s@[first_keep(s@, p)]));
            }
        }
        return String::new();
    }
    let mut b: usize = n - 1;
    let mut back = true;
    while back
        invariant
            p == (if slashes { slash_pred() } else { space_pred() }),
            n == s@.len(),
            a <= b < n,
            !p(s@[a as int]),
            forall|j: int| b < j < n ==> p(s@[j]),
            !back ==> (b == a || !p(s@[b as int])),
        decreases b, (if back { 1int } else { 0int }),
    {
        if b > a {
            if strips(s.get_char(b), slashes) {
                b = b - 1;
            } else {
                back = false;
            }
        } else {
            back = false;
        }
    }
    proof {
        lemma_first_keep(s@, p);
        lemma_last_keep(s@, p);
        let fa = first_keep(s@, p);
        assert(!p(s@[a as int]));
        assert(fa != -1);
        if fa < a as int {
            assert(p(s@[fa]));
        }
        if fa > a as int {
            assert(!p(s@[fa]));
        }
        assert(fa == a as int);
        let lb = last_keep(s@, p);
        assert(!p(s@[b as int]));
        assert(lb != -1);
        if lb > b as int {
            assert(p(s@[lb]));
        }
        if lb < b as int {
            assert(p(s@[b as int]));
        }
        assert(lb == b as int);
    }
    let cut = s.substring_char(a, b + 1);
    cut.to_owned()
}

// --- decimal parsing ---

pub open spec fn is_dec_digit(c: char) -> bool {
    '0' <= c && c <= '9'
}

pub open spec fn digit_val(c: char) -> int {
    c as int - '0' as int
}

/// The number a string of decimal digits spells.
pub open spec fn digits_value(s: Seq<char>) -> int
    decreases s.len(),
{
    if s.len() == 0 {
        0
    } else {
        digits_value(s.drop_last()) * 10 + digit_val(s.last())
    }
}

proof fn lemma_digits_prefix_bound(s: Seq<char>, k: int)
    requires
        0 <= k <= s.len(),
        forall|i: int| 0 <= i < s.len() ==> is_dec_digit(s[i]),
        digits_value(s.take(k)) >= 0,
    ensures
        digits_value(s) >= digits_value(s.take(k)),
        digits_value(s) >= 0,
    decreases s.len() - k,
{
    if k == s.len() {
        assert(s.take(k) =~= s);
    } else {
        assert(s.take(k + 1).drop_last() =~= s.take(k));
        assert(s.take(k + 1).last() == s[k]);
        assert(digits_value(s.take(k + 1)) >= digits_value(s.take(k)));
        lemma_digits_prefix_bound(s, k + 1);
    }
}

/// Parses a whole string of decimal digits. Succeeds exactly on non-empty
/// all-digit strings whose value fits, returning that value.
pub fn parse_u32(s: &str) -> (r: Option<u32>)
    ensures
        match r {
            Some(v) => s@.len() > 0 && (forall|i: int| 0 <= i < s@.len() ==> is_dec_digit(s@[i]))
                && digits_value(s@) == v,
            None => s@.len() == 0 || (exists|i: int|
                0 <= i < s@.len() && !is_dec_digit(s@[i])) || digits_value(s@) > u32::MAX,
        },
{
    let n = s.unicode_len();
    if n == 0 {
        return None;
    }
    let mut acc: u64 = 0;
    let mut i: usize = 0;
    while i < n
        invariant
            n == s@.len(),
            i <= n,
            forall|j: int| 0 <= j < i ==> is_dec_digit(s@[j]),
            acc == digits_value(s@.take(i as int)),
            acc <= u32::MAX,
        decreases n - i,
    {
        let c = s.get_char(i);
        if c < '0' || c > '9' {
            return None;
        }
        let d = (c as u32) - 48;
        let acc2 = acc * 10 + (d as u64);
        proof {
            assert(s@.take(i + 1).drop_last() =~= s@.take(i as int));
            assert(s@.take(i + 1).last() == s@[i as int]);
            assert(acc2 == digits_value(s@.take(i + 1)));
        }
        if acc2 > 0xffff_ffff {
            proof {
                if forall|j: int| 0 <= j < s@.len() ==> is_dec_digit(s@[j]) {
                    lemma_digits_prefix_bound(s@, i + 1);
                }
            }
            return None;
        }
        acc = acc2;
        i = i + 1;
    }
    proof {
        assert(s@.take(n as int) =~= s@);
    }
    Some(acc as u32)
}

/// The decimal spelling of a number reads back as that number: the digit
/// sequence `u32_to_decimal` produces is non-empty, all digits, and
/// `parse_u32` returns exactly the original value on it.
pub proof fn lemma_decimal_round_trip(n: nat)
    ensures
        dec_digits(n).len() > 0,
        forall|i: int| 0 <= i < dec_digits(n).len() ==> is_dec_digit(dec_digits(n)[i]),
        digits_value(dec_digits(n)) == n,
    decreases n,
{
    if n < 10 {
        let s = seq![digit_char(n)];
        assert(dec_digits(n) =~= s);
        assert(is_dec_digit(digit_char(n)));
        assert(digit_val(digit_char(n)) == n);
        assert(s.drop_last() =~= Seq::<char>::empty());
        assert(s.last() == digit_char(n));
        assert(digits_value(Seq::<char>::empty()) == 0);
        assert(digits_value(s.drop_last()) == 0);
        assert(digits_value(s) == digits_value(s.drop_last()) * 10 + digit_val(s.last()));
    } else {
        lemma_decimal_round_trip(n / 10);
        let s = dec_digits(n);
        assert(s =~= dec_digits(n / 10).push(digit_char(n % 10)));
        assert(s.drop_last() =~= dec_digits(n / 10));
        assert(s.last() == digit_char(n % 10));
        assert(digit_val(digit_char(n % 10)) == n % 10);
        assert(digits_value(s) == (n / 10) * 10 + n % 10);
        assert forall|i: int| 0 <= i < s.len() implies is_dec_digit(s[i]) by {
            if i < s.len() - 1 {
                assert(s[i] == dec_digits(n / 10)[i]);
            }
        }
    }
}

// --- case id extraction ---

/// What follows the first `/no/` of a href.
pub open spec fn rest_text(href: Seq<char>) -> Seq<char> {
    href.subrange(first_match(href, "/no/"@) + "/no/"@.len(), href.len() as int)
}

/// The piece between the first `/no/` of a href and the next one (or the
/// end).
pub open spec fn seg_text(href: Seq<char>) -> Seq<char> {
    if first_match(rest_text(href), "/no/"@) == -1 {
        rest_text(href)
    } else {
        rest_text(href).take(first_match(rest_text(href), "/no/"@))
    }
}

/// The candidate id text of a href: the piece after `/no/`, stripped of
/// slashes.
pub open spec fn id_text(href: Seq<char>) -> Seq<char> {
    trim_by(seg_text(href), slash_pred())
}

/// Whether a candidate id text spells a case id.
pub open spec fn valid_id_text(t: Seq<char>) -> bool {
    t.len() > 0 && (forall|i: int| 0 <= i < t.len() ==> is_dec_digit(t[i])) && digits_value(t)
        <= u32::MAX
}

/// The case id a search-result link points at: the text between the first
/// `/no/` of the href and the next one (or the end), stripped of slashes,
/// read as a decimal number. Absent or non-numeric text yields nothing.
pub open spec fn spec_href_case_id(href: Seq<char>) -> Option<u32> {
    if first_match(href, "/no/"@) == -1 {
        None
    } else if valid_id_text(id_text(href)) {
        Some(digits_value(id_text(href)) as u32)
    } else {
        None
    }
}

/// Reads the case id out of a judgment link's href.
pub fn case_id_from_href(href: &str) -> (r: Option<u32>)
    ensures
        r == spec_href_case_id(href@),
{
    proof {
        reveal_strlit("/no/");
    }
    let f = match find_sub(href, "/no/") {
        None => {
            return None;
        },
        Some(i) => i,
    };
    proof {
        lemma_first_match(href@, "/no/"@);
    }
    let n = href.unicode_len();
    let rest = href.substring_char(f + 4, n);
    let g = find_sub(rest, "/no/");
    proof {
        if first_match(rest@, "/no/"@) != -1 {
            lemma_first_match(rest@, "/no/"@);
            assert(rest@.subrange(0, first_match(rest@, "/no/"@)) =~= rest@.take(
                first_match(rest@, "/no/"@),
            ));
        }
    }
    let seg = match g {
        None => rest,
        Some(j) => rest.substring_char(0, j),
    };
    let t = trim_slashes(seg);
    let r = parse_u32(t.as_str());
    proof {
        assert("/no/"@.len() == 4);
        assert(rest@ == rest_text(href@));
        assert(seg@ == seg_text(href@));
        assert(t@ == id_text(href@));
        if r is Some {
            lemma_digits_prefix_bound(t@, 0);
        }
    }
    r
}

// --- search results ---

/// One hit of the judgment search: the case identifier, its title, and
/// the date when the source page carries one.
#[derive(Debug, Clone)]
pub struct SearchResult {
    pub case_id: u32,
    pub title: String,
    pub date: String,
}

pub ghost struct SearchResultView {
    pub case_id: u32,
    pub title: Seq<char>,
    pub date: Seq<char>,
}

impl View for SearchResult {
    type V = SearchResultView;

    open spec fn view(&self) -> SearchResultView {
        SearchResultView { case_id: self.case_id, title: self.title@, date: self.date@ }
    }
}

impl DeepView for SearchResult {
    type V = SearchResultView;

    open spec fn deep_view(&self) -> SearchResultView {
        self.view()
    }
}

/// What one link contributes: a result when its href carries a case id
/// and its trimmed text is non-empty, and nothing otherwise.
pub open spec fn link_result(l: (Seq<char>, Seq<char>)) -> Option<SearchResultView> {
    match spec_href_case_id(l.0) {
        Some(id) => {
            let t = trim_by(l.1, space_pred());
            if t.len() > 0 {
                Some(SearchResultView { case_id: id, title: t, date: Seq::<char>::empty() })
            } else {
                None
            }
        },
        None => None,
    }
}

/// The results of a page's links, in order, keeping the first `limit`
/// usable ones and skipping links without a case id or without a title.
pub open spec fn collect_spec(ls: Seq<(Seq<char>, Seq<char>)>, limit: int) -> Seq<SearchResultView>
    decreases ls.len(),
{
    if ls.len() == 0 || limit <= 0 {
        Seq::<SearchResultView>::empty()
    } else {
        match link_result(ls[0]) {
            Some(v) => seq![v] + collect_spec(ls.drop_first(), limit - 1),
            None => collect_spec(ls.drop_first(), limit),
        }
    }
}

/// However a page reads, a search never returns more than `limit` hits,
/// and every hit carries a non-empty title.
pub proof fn lemma_collect_bounded(ls: Seq<(Seq<char>, Seq<char>)>, limit: int)
    ensures
        limit >= 0 ==> collect_spec(ls, limit).len() <= limit,
        forall|i: int| 0 <= i < collect_spec(ls, limit).len() ==> collect_spec(
            ls,
            limit,
        )[i].title.len() > 0,
    decreases ls.len(),
{
    if ls.len() == 0 || limit <= 0 {
    } else {
        lemma_collect_bounded(ls.drop_first(), limit - 1);
        lemma_collect_bounded(ls.drop_first(), limit);
    }
}

fn collect_search_results(links: &Vec<(String, String)>, limit: usize) -> (r: Vec<SearchResult>)
    ensures
        r.deep_view() == collect_spec(links.deep_view(), limit as int),
{
    let ghost full = links.deep_view();
    let mut out: Vec<SearchResult> = Vec::new();
    let mut i: usize = 0;
    proof {
        assert(full.skip(0) =~= full);
        assert(out.deep_view() =~= Seq::<SearchResultView>::empty());
        assert(out.deep_view() + collect_spec(full, limit as int) =~= collect_spec(
            full,
            limit as int,
        ));
    }
    while i < links.len() && out.len() < limit
        invariant
            i <= links.len(),
            full == links.deep_view(),
            out.deep_view().len() == out@.len(),
            out@.len() <= limit,
            collect_spec(full, limit as int) == out.deep_view() + collect_spec(
                full.skip(i as int),
                limit - out@.len(),
            ),
        decreases links.len() - i,
    {
        let ghost tail = full.skip(i as int);
        let ghost rem = limit - out@.len();
        proof {
            assert(full[i as int] == (links@[i as int].0@, links@[i as int].1@));
            assert(tail[0] == full[i as int]);
            assert(tail.drop_first() =~= full.skip(i + 1));
        }
        let id = case_id_from_href(links[i].0.as_str());
        match id {
            Some(case_id) => {
                let title = trim_spaces(links[i].1.as_str());
                if title.as_str().unicode_len() > 0 {
                    let sr = SearchResult { case_id, title, date: String::new() };
                    let ghost oldv = out.deep_view();
                    proof {
                        assert(link_result(tail[0]) == Some(sr.deep_view()));
                        assert(collect_spec(tail, rem) == seq![sr.deep_view()] + collect_spec(
                            tail.drop_first(),
                            rem - 1,
                        ));
                    }
                    out.push(sr);
                    proof {
                        assert(out.deep_view() =~= oldv.push(sr.deep_view()));
                        assert(oldv + (seq![sr.deep_view()] + collect_spec(
                            full.skip(i + 1),
                            rem - 1,
                        )) =~= oldv.push(sr.deep_view()) + collect_spec(full.skip(i + 1), rem - 1));
                    }
                } else {
                    proof {
                        assert(link_result(tail[0]) is None);
                        assert(collect_spec(tail, rem) == collect_spec(tail.drop_first(), rem));
                    }
                }
            },
            None => {
                proof {
                    assert(link_result(tail[0]) is None);
                    assert(collect_spec(tail, rem) == collect_spec(tail.drop_first(), rem));
                }
            },
        }
        i = i + 1;
    }
    proof {
        if i == links@.len() {
            assert(full.skip(i as int) =~= Seq::<(Seq<char>, Seq<char>)>::empty());
        }
        assert(out.deep_view() + Seq::<SearchResultView>::empty() =~= out.deep_view());
    }
    out
}

// --- the outside calls ---

/// What urlencoding::encode yields on a given text.
pub uninterp spec fn url_encoded(s: Seq<char>) -> Seq<char>;

/// Relies on urlencoding::encode: percent-encodes every byte outside the
/// unreserved set; the result is a function of the text alone, and an
/// empty text stays empty.
#[verifier::external_body]
fn url_encode(s: &str) -> (r: String)
    ensures
        r@ == url_encoded(s@),
        s@.len() == 0 ==> r@.len() == 0,
{
    urlencoding::encode(s).into_owned()
}

/// The case page URL for a case id.
pub fn case_url(case_id: u32) -> (r: String)
    ensures
        r@ == "https://ipforce.jp/Hanketsu/jiken/no/"@ + dec_digits(case_id as nat),
{
    let mut u = "https://ipforce.jp/Hanketsu/jiken/no/".to_owned();
    u.append(crate::digits::u32_to_decimal(case_id).as_str());
    u
}

/// The server-side search URL for an optional keyword.
pub fn search_url(keyword: Option<&str>) -> (r: String)
    ensures
        keyword matches Some(kw) ==> r@ == "https://ipforce.jp/Hanketsu/search/keyword/"@
            + url_encoded(kw@),
        keyword is None ==> r@ == "https://ipforce.jp/Hanketsu/search"@,
{
    match keyword {
        Some(kw) => {
            let mut u = "https://ipforce.jp/Hanketsu/search/keyword/".to_owned();
            u.append(url_encode(kw).as_str());
            u
        },
        None => "https://ipforce.jp/Hanketsu/search".to_owned(),
    }
}

/// The (href, text) of each judgment link of a search page, in document
/// order.
pub uninterp spec fn judgment_links_of(page: Seq<char>) -> Seq<(Seq<char>, Seq<char>)>;

/// Relies on scraper's Html::parse_document and Selector::parse: collects,
/// in document order, the href and the joined text of every anchor under a
/// `span.name` whose href holds `/Hanketsu/jiken/no/`. The result is a
/// function of the page text alone.
#[verifier::external_body]
fn judgment_links(page: &str) -> (r: Vec<(String, String)>)
    ensures
        r.deep_view() == judgment_links_of(page@),
{
    let document = scraper::Html::parse_document(page);
    let selector = scraper::Selector::parse("span.name a[href*='/Hanketsu/jiken/no/']").unwrap();
    let mut out = Vec::new();
    for elem in document.select(&selector) {
        if let Some(href) = elem.value().attr("href") {
            out.push((href.to_string(), elem.text().collect::<Vec<_>>().join("")));
        }
    }
    out
}

/// The judgment text a fetched case page carries.
pub uninterp spec fn judgment_text_of(page: Seq<char>) -> Seq<char>;

/// Relies on scraper's Html::parse_document and Selector::parse: the
/// joined text under `div#hanketsu_contents`, or the whole document's text
/// joined by spaces when that block is absent. The result is a function of
/// the page text alone. Truncating it to the model's budget is the
/// pipeline's job.
#[verifier::external_body]
pub fn extract_judgment_text(page: &str) -> (r: String)
    ensures
        r@ == judgment_text_of(page@),
{
    let document = scraper::Html::parse_document(page);
    let selector = scraper::Selector::parse("div#hanketsu_contents").unwrap();
    if let Some(elem) = document.select(&selector).next() {
        elem.text().collect::<Vec<_>>().join("")
    } else {
        document.root_element().text().collect::<Vec<_>>().join(" ")
    }
}

/// Searches one already-fetched results page: extracts its judgment links
/// and keeps the first `limit` that carry a case id and a title. Fetching
/// the page is the caller's I/O.
pub fn search_judgments(page: &str, limit: usize) -> (r: Vec<SearchResult>)
    ensures
        r.deep_view() == collect_spec(judgment_links_of(page@), limit as int),
        r@.len() <= limit,
        forall|i: int| 0 <= i < r@.len() ==> r@[i].title@.len() > 0,
{
    let links = judgment_links(page);
    let out = collect_search_results(&links, limit);
    proof {
        lemma_collect_bounded(judgment_links_of(page@), limit as int);
        assert(out.deep_view().len() == out@.len());
        assert forall|i: int| 0 <= i < out@.len() implies out@[i].title@.len() > 0 by {
            assert(out.deep_view()[i] == out@[i].deep_view());
        }
    }
    out
}

} // verus!
