//! Character-level text scanning: substring search, suffix tests,
//! whitespace tokens, pattern removal, and query-string splitting. These
//! are the primitives the credential logic parses wire text with; each is
//! specified over `Seq<char>` views.

use vstd::prelude::*;

verus! {

/// The pattern occurs in `s` starting at position `i`.
pub open spec fn match_at(s: Seq<char>, pat: Seq<char>, i: int) -> bool {
    0 <= i && i + pat.len() <= s.len() && s.subrange(i, i + pat.len()) == pat
}

/// The pattern occurs somewhere in `s`.
pub open spec fn contains_seq(s: Seq<char>, pat: Seq<char>) -> bool {
    exists|i: int| match_at(s, pat, i)
}

/// Index of the first occurrence of the pattern in `s`, or `-1` when there
/// is none.
pub open spec fn find_first(s: Seq<char>, pat: Seq<char>) -> int
    decreases s.len(),
{
    if pat.len() > s.len() {
        -1
    } else if match_at(s, pat, 0) {
        0
    } else if s.len() == 0 {
        -1
    } else {
        let r = find_first(s.drop_first(), pat);
        if r == -1 {
            -1
        } else {
            r + 1
        }
    }
}

/// Dropping the first character shifts every occurrence by one.
proof fn lemma_match_shift(s: Seq<char>, pat: Seq<char>, j: int)
    requires
        s.len() > 0,
        j >= 0,
    ensures
        match_at(s.drop_first(), pat, j) == match_at(s, pat, j + 1),
{
    if j + pat.len() <= s.len() - 1 {
        assert(s.drop_first().subrange(j, j + pat.len()) =~= s.subrange(j + 1, j + 1 + pat.len()));
    }
}

/// If the pattern matches at `i` and nowhere earlier, `i` is the first
/// occurrence.
proof fn lemma_find_first_at(s: Seq<char>, pat: Seq<char>, i: int)
    requires
        match_at(s, pat, i),
        forall|j: int| 0 <= j < i ==> !match_at(s, pat, j),
    ensures
        find_first(s, pat) == i,
    decreases i,
{
    if i == 0 {
    } else {
        assert(s.len() > 0);
        lemma_match_shift(s, pat, i - 1);
        assert(match_at(s.drop_first(), pat, i - 1));
        assert forall|j: int| 0 <= j < i - 1 implies !match_at(s.drop_first(), pat, j) by {
            lemma_match_shift(s, pat, j);
        }
        lemma_find_first_at(s.drop_first(), pat, i - 1);
        assert(!match_at(s, pat, 0));
    }
}

/// If the pattern matches nowhere, there is no first occurrence.
proof fn lemma_find_first_none(s: Seq<char>, pat: Seq<char>)
    requires
        forall|j: int| !match_at(s, pat, j),
    ensures
        find_first(s, pat) == -1,
    decreases s.len(),
{
    if !(pat.len() > s.len()) && s.len() > 0 {
        assert forall|j: int| !match_at(s.drop_first(), pat, j) by {
            if j >= 0 {
                lemma_match_shift(s, pat, j);
            }
        }
        lemma_find_first_none(s.drop_first(), pat);
    }
}

/// Every occurrence is at or after the first one.
pub proof fn lemma_find_first_bounds(s: Seq<char>, pat: Seq<char>)
    ensures
        find_first(s, pat) >= -1,
        find_first(s, pat) == -1 ==> !contains_seq(s, pat),
        find_first(s, pat) >= 0 ==> match_at(s, pat, find_first(s, pat)),
        find_first(s, pat) >= 0 ==> forall|j: int|
            0 <= j < find_first(s, pat) ==> !match_at(s, pat, j),
    decreases s.len(),
{
    if pat.len() > s.len() {
        assert forall|j: int| !match_at(s, pat, j) by {}
    } else if match_at(s, pat, 0) {
    } else if s.len() == 0 {
        assert forall|j: int| !match_at(s, pat, j) by {}
    } else {
        lemma_find_first_bounds(s.drop_first(), pat);
        let r = find_first(s.drop_first(), pat);
        if r == -1 {
            assert forall|j: int| !match_at(s, pat, j) by {
                if j > 0 {
                    lemma_match_shift(s, pat, j - 1);
                }
            }
        } else {
            lemma_match_shift(s, pat, r);
            assert forall|j: int| 0 <= j < r + 1 implies !match_at(s, pat, j) by {
                if j > 0 {
                    lemma_match_shift(s, pat, j - 1);
                }
            }
        }
    }
}

/// Find the first occurrence of `pat` in `s`, by character position.
pub fn find_sub(s: &str, pat: &str) -> (r: Option<usize>)
    ensures
        r is None ==> find_first(s@, pat@) == -1,
        r matches Some(i) ==> find_first(s@, pat@) == i,
{
    let n = s.unicode_len();
    let m = pat.unicode_len();
    if m > n {
        proof {
            assert forall|j: int| !match_at(s@, pat@, j) by {}
            lemma_find_first_none(s@, pat@);
        }
        return None;
    }
    let mut i: usize = 0;
    while i <= n - m
        invariant
            m <= n,
            n == s@.len(),
            m == pat@.len(),
            i <= n - m + 1,
            forall|j: int| 0 <= j < i ==> !match_at(s@, pat@, j),
        decreases n - m - i + 1,
    {
        let mut k: usize = 0;
        while k < m && s.get_char(i + k) == pat.get_char(k)
            invariant
                m <= n,
                n == s@.len(),
                m == pat@.len(),
                i + m <= n,
                k <= m,
                forall|l: int| 0 <= l < k ==> s@[i + l] == pat@[l],
            decreases m - k,
        {
            k += 1;
        }
        if k == m {
            proof {
                assert(s@.subrange(i as int, i + m) =~= pat@);
                lemma_find_first_at(s@, pat@, i as int);
            }
            return Some(i);
        }
        proof {
            if match_at(s@, pat@, i as int) {
                assert(s@.subrange(i as int, i + m)[k as int] == pat@[k as int]);
                assert(s@[i + k] == pat@[k as int]);
            }
        }
        i += 1;
    }
    proof {
        assert forall|j: int| !match_at(s@, pat@, j) by {
            if 0 <= j <= n - m {
                assert(!match_at(s@, pat@, j));
            }
        }
        lemma_find_first_none(s@, pat@);
    }
    None
}

/// Whether `pat` occurs anywhere in `s`.
pub fn contains_sub(s: &str, pat: &str) -> (r: bool)
    ensures
        r == contains_seq(s@, pat@),
{
    proof {
        lemma_find_first_bounds(s@, pat@);
    }
    find_sub(s, pat).is_some()
}

/// `s` ends with the given suffix.
pub open spec fn ends_with_seq(s: Seq<char>, suffix: Seq<char>) -> bool {
    suffix.len() <= s.len() && s.subrange(s.len() - suffix.len(), s.len() as int) == suffix
}

/// Whether `s` ends with `suffix`, by characters.
pub fn str_ends_with(s: &str, suffix: &str) -> (r: bool)
    ensures
        r == ends_with_seq(s@, suffix@),
{
    let n = s.unicode_len();
    let m = suffix.unicode_len();
    if m > n {
        return false;
    }
    let mut k: usize = 0;
    while k < m
        invariant
            m <= n,
            n == s@.len(),
            m == suffix@.len(),
            k <= m,
            forall|l: int| 0 <= l < k ==> s@[n - m + l] == suffix@[l],
        decreases m - k,
    {
        if s.get_char(n - m + k) != suffix.get_char(k) {
            proof {
                if ends_with_seq(s@, suffix@) {
                    assert(s@.subrange(n - m, n as int)[k as int] == suffix@[k as int]);
                }
            }
            return false;
        }
        k += 1;
    }
    proof {
        assert(s@.subrange(n - m, n as int) =~= suffix@);
    }
    true
}

/// The characters a whitespace token boundary recognizes.
pub open spec fn is_space(c: char) -> bool {
    c == ' ' || c == '\t' || c == '\n' || c == '\r' || c == '\u{b}' || c == '\u{c}'
}

fn is_space_char(c: char) -> (r: bool)
    ensures
        r == is_space(c),
{
    c == ' ' || c == '\t' || c == '\n' || c == '\r' || c == '\u{b}' || c == '\u{c}'
}

/// How many whitespace characters `s` starts with.
pub open spec fn leading_space_count(s: Seq<char>) -> nat
    decreases s.len(),
{
    if s.len() == 0 || !is_space(s[0]) {
        0
    } else {
        1 + leading_space_count(s.drop_first())
    }
}

/// How long a run of non-whitespace characters `s` starts with.
pub open spec fn token_length(s: Seq<char>) -> nat
    decreases s.len(),
{
    if s.len() == 0 || is_space(s[0]) {
        0
    } else {
        1 + token_length(s.drop_first())
    }
}

proof fn lemma_leading_space_count_at(s: Seq<char>, i: int)
    requires
        0 <= i <= s.len(),
        forall|j: int| 0 <= j < i ==> is_space(s[j]),
        i < s.len() ==> !is_space(s[i]),
    ensures
        leading_space_count(s) == i,
    decreases i,
{
    if i > 0 {
        lemma_leading_space_count_at(s.drop_first(), i - 1);
    }
}

proof fn lemma_token_length_at(s: Seq<char>, i: int)
    requires
        0 <= i <= s.len(),
        forall|j: int| 0 <= j < i ==> !is_space(s[j]),
        i < s.len() ==> is_space(s[i]),
    ensures
        token_length(s) == i,
    decreases i,
{
    if i > 0 {
        lemma_token_length_at(s.drop_first(), i - 1);
    }
}

/// The first whitespace-separated token of `s`, empty when there is none.
pub open spec fn first_token(s: Seq<char>) -> Seq<char> {
    let start = leading_space_count(s) as int;
    let rest = s.subrange(start, s.len() as int);
    rest.subrange(0, token_length(rest) as int)
}

/// Extract the first whitespace-separated token.
pub fn first_token_str(s: &str) -> (r: String)
    ensures
        r@ == first_token(s@),
{
    let n = s.unicode_len();
    let mut st: usize = 0;
    while st < n && is_space_char(s.get_char(st))
        invariant
            st <= n,
            n == s@.len(),
            forall|j: int| 0 <= j < st ==> is_space(s@[j]),
        decreases n - st,
    {
        st += 1;
    }
    proof {
        lemma_leading_space_count_at(s@, st as int);
    }
    let mut e: usize = st;
    while e < n && !is_space_char(s.get_char(e))
        invariant
            st <= e <= n,
            n == s@.len(),
            forall|j: int| st <= j < e ==> !is_space(s@[j]),
        decreases n - e,
    {
        e += 1;
    }
    proof {
        let rest = s@.subrange(st as int, n as int);
        assert forall|j: int| 0 <= j < e - st implies !is_space(rest[j]) by {
            assert(rest[j] == s@[st + j]);
        }
        if e < n {
            assert(rest[e - st] == s@[e as int]);
        }
        lemma_token_length_at(rest, e - st);
        assert(s@.subrange(st as int, e as int) =~= rest.subrange(0, token_length(rest) as int));
    }
    String::from_str(s.substring_char(st, e))
}

/// `s` with every occurrence of the pattern struck out, scanning left to
/// right without overlap. An empty pattern leaves `s` unchanged.
pub open spec fn remove_all(s: Seq<char>, pat: Seq<char>) -> Seq<char>
    decreases s.len(),
{
    let f = find_first(s, pat);
    if pat.len() == 0 || f < 0 || f + pat.len() > s.len() {
        s
    } else {
        s.subrange(0, f) + remove_all(s.subrange(f + pat.len(), s.len() as int), pat)
    }
}

/// Strike every occurrence of `pat` out of `s`.
pub fn remove_all_str(s: &str, pat: &str) -> (r: String)
    requires
        pat@.len() > 0,
    ensures
        r@ == remove_all(s@, pat@),
{
    let m = pat.unicode_len();
    let mut out = String::new();
    let mut rem: &str = s;
    loop
        invariant
            m == pat@.len() > 0,
            out@ + remove_all(rem@, pat@) == remove_all(s@, pat@),
        decreases rem@.len(),
    {
        match find_sub(rem, pat) {
            None => {
                out.append(rem);
                proof {
                    lemma_find_first_bounds(rem@, pat@);
                }
                return out;
            },
            Some(f) => {
                proof {
                    lemma_find_first_bounds(rem@, pat@);
                }
                let n = rem.unicode_len();
                out.append(rem.substring_char(0, f));
                rem = rem.substring_char(f + m, n);
            },
        }
    }
}

/// The key/value pairs of one `key=value` piece: the first `=` splits it;
/// a piece without `=` contributes nothing.
pub open spec fn pair_of(piece: Seq<char>) -> Seq<(Seq<char>, Seq<char>)> {
    let e = find_first(piece, "="@);
    if e < 0 || e + 1 > piece.len() {
        Seq::empty()
    } else {
        seq![(piece.subrange(0, e), piece.subrange(e + 1, piece.len() as int))]
    }
}

/// The key/value pairs of a query string, split on `&`, in order.
pub open spec fn split_pairs(q: Seq<char>) -> Seq<(Seq<char>, Seq<char>)>
    decreases q.len(),
{
    let a = find_first(q, "&"@);
    if a < 0 || a + 1 > q.len() {
        pair_of(q)
    } else {
        pair_of(q.subrange(0, a)) + split_pairs(q.subrange(a + 1, q.len() as int))
    }
}

/// The key/value pairs of a whole URL: everything after the first `?`,
/// split on `&`; a URL without `?` has none.
pub open spec fn url_pairs(u: Seq<char>) -> Seq<(Seq<char>, Seq<char>)> {
    let p = find_first(u, "?"@);
    if p < 0 || p + 1 > u.len() {
        Seq::empty()
    } else {
        split_pairs(u.subrange(p + 1, u.len() as int))
    }
}

/// Split one `key=value` piece.
fn pair_of_str(piece: &str) -> (r: Option<(String, String)>)
    ensures
        r is None ==> pair_of(piece@) == Seq::<(Seq<char>, Seq<char>)>::empty(),
        r matches Some(kv) ==> pair_of(piece@) == seq![(kv.0@, kv.1@)],
{
    let n = piece.unicode_len();
    match find_sub(piece, "=") {
        None => None,
        Some(e) => {
            proof {
                lemma_find_first_bounds(piece@, "="@);
                reveal_strlit("=");
            }
            let k = String::from_str(piece.substring_char(0, e));
            let v = String::from_str(piece.substring_char(e + 1, n));
            Some((k, v))
        },
    }
}

/// Collect the key/value pairs of a whole URL, in order of appearance.
pub fn url_pairs_str(url: &str) -> (r: Vec<(String, String)>)
    ensures
        r@.map_values(|kv: (String, String)| (kv.0@, kv.1@)) == url_pairs(url@),
{
    let mut out: Vec<(String, String)> = Vec::new();
    let n = url.unicode_len();
    let query: &str = match find_sub(url, "?") {
        None => {
            assert(out@.map_values(|kv: (String, String)| (kv.0@, kv.1@)) =~= url_pairs(url@));
            return out;
        },
        Some(p) => {
            proof {
                lemma_find_first_bounds(url@, "?"@);
                reveal_strlit("?");
            }
            url.substring_char(p + 1, n)
        },
    };
    let mut rem: &str = query;
    loop
        invariant
            out@.map_values(|kv: (String, String)| (kv.0@, kv.1@)) + split_pairs(rem@)
                =~= url_pairs(url@),
        decreases rem@.len(),
    {
        let rn = rem.unicode_len();
        match find_sub(rem, "&") {
            None => {
                proof {
                    lemma_find_first_bounds(rem@, "&"@);
                }
                match pair_of_str(rem) {
                    None => {},
                    Some(kv) => {
                        let ghost prev = out@;
                        out.push(kv);
                        proof {
                            assert(out@.map_values(|kv2: (String, String)| (kv2.0@, kv2.1@))
                                =~= prev.map_values(|kv2: (String, String)| (kv2.0@, kv2.1@))
                                + pair_of(rem@));
                        }
                    },
                }
                assert(out@.map_values(|kv2: (String, String)| (kv2.0@, kv2.1@)) =~= url_pairs(
                    url@,
                ));
                return out;
            },
            Some(a) => {
                proof {
                    lemma_find_first_bounds(rem@, "&"@);
                    reveal_strlit("&");
                }
                let piece = rem.substring_char(0, a);
                match pair_of_str(piece) {
                    None => {},
                    Some(kv) => {
                        let ghost prev = out@;
                        out.push(kv);
                        proof {
                            assert(out@.map_values(|kv2: (String, String)| (kv2.0@, kv2.1@))
                                =~= prev.map_values(|kv2: (String, String)| (kv2.0@, kv2.1@))
                                + pair_of(piece@));
                        }
                    },
                }
                rem = rem.substring_char(a + 1, rn);
            },
        }
    }
}

} // verus!
