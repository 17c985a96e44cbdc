//! Parsing of the two header values the service reads — the bearer token
//! of an `Authorization` header and the refresh token of a `Cookie`
//! header — and building of the rotated refresh cookie.

use vstd::prelude::*;
use vstd::string::StrSliceExecFns;
use vstd::string::StringExecFns;

verus! {

/// Whether `p` is a prefix of `s`.
pub open spec fn has_prefix_spec(s: Seq<char>, p: Seq<char>) -> bool {
    s.len() >= p.len() && s.subrange(0, p.len() as int) == p
}

fn has_prefix(s: &str, p: &str) -> (r: bool)
    ensures
        r == has_prefix_spec(s@, p@),
{
    let np = p.unicode_len();
    let ns = s.unicode_len();
    if ns < np {
        assert(!has_prefix_spec(s@, p@));
        return false;
    }
    let mut i: usize = 0;
    while i < np
        invariant
            i <= np,
            np == p@.len(),
            np <= s@.len(),
            forall|j: int| 0 <= j < i ==> s@[j] == p@[j],
        decreases np - i,
    {
        if s.get_char(i) != p.get_char(i) {
            assert(!has_prefix_spec(s@, p@)) by {
                if has_prefix_spec(s@, p@) {
                    assert(s@.subrange(0, p@.len() as int)[i as int] == s@[i as int]);
                }
            }
            return false;
        }
        i += 1;
    }
    assert(s@.subrange(0, np as int) =~= p@);
    true
}

/// The bearer token carried by an `Authorization` header value: whatever
/// follows the `"Bearer "` scheme prefix.
pub open spec fn bearer_token_of(h: Seq<char>) -> Option<Seq<char>> {
    if has_prefix_spec(h, "Bearer "@) {
        Some(h.skip("Bearer "@.len() as int))
    } else {
        None
    }
}

/// Extract the bearer token from an `Authorization` header value.
pub fn extract_bearer(header: &str) -> (r: Option<String>)
    ensures
        r matches Some(t) ==> bearer_token_of(header@) == Some(t@),
        r is None ==> bearer_token_of(header@) is None,
{
    let scheme = "Bearer ";
    if has_prefix(header, scheme) {
        let n = header.unicode_len();
        let np = scheme.unicode_len();
        let rest = header.substring_char(np, n);
        assert(rest@ =~= header@.skip(scheme@.len() as int));
        Some(rest.to_owned())
    } else {
        None
    }
}

/// A space or horizontal tab, the padding that surrounds entries of a
/// `Cookie` header value.
pub open spec fn is_pad(c: char) -> bool {
    c == ' ' || c == '\t'
}

/// Number of padding characters at the start of `s`.
pub open spec fn pad_lo(s: Seq<char>) -> nat
    decreases s.len(),
{
    if s.len() > 0 && is_pad(s[0]) {
        (1 + pad_lo(s.drop_first())) as nat
    } else {
        0
    }
}

/// Length of `s` once padding at its end is dropped.
pub open spec fn pad_hi(s: Seq<char>) -> nat
    decreases s.len(),
{
    if s.len() > 0 && is_pad(s.last()) {
        pad_hi(s.drop_last())
    } else {
        s.len()
    }
}

/// `s` with padding dropped from both ends.
pub open spec fn trimmed(s: Seq<char>) -> Seq<char> {
    if pad_lo(s) < pad_hi(s) {
        s.subrange(pad_lo(s) as int, pad_hi(s) as int)
    } else {
        Seq::empty()
    }
}

proof fn lemma_pad_lo(s: Seq<char>)
    ensures
        pad_lo(s) <= s.len(),
        forall|j: int| 0 <= j < pad_lo(s) ==> is_pad(s[j]),
        pad_lo(s) < s.len() ==> !is_pad(s[pad_lo(s) as int]),
    decreases s.len(),
{
    if s.len() > 0 && is_pad(s[0]) {
        lemma_pad_lo(s.drop_first());
        assert forall|j: int| 0 <= j < pad_lo(s) implies is_pad(s[j]) by {
            if j > 0 {
                assert(s.drop_first()[j - 1] == s[j]);
            }
        }
    }
}

proof fn lemma_pad_hi(s: Seq<char>)
    ensures
        pad_hi(s) <= s.len(),
        forall|j: int| pad_hi(s) <= j < s.len() ==> is_pad(s[j]),
        pad_hi(s) > 0 ==> !is_pad(s[pad_hi(s) - 1]),
    decreases s.len(),
{
    if s.len() > 0 && is_pad(s.last()) {
        lemma_pad_hi(s.drop_last());
        assert forall|j: int| pad_hi(s) <= j < s.len() implies is_pad(s[j]) by {
            if j < s.len() - 1 {
                assert(s.drop_last()[j] == s[j]);
            }
        }
    }
}

/// Drop the padding on both ends of an entry.
fn trim_entry(e: &str) -> (t: &str)
    ensures
        t@ == trimmed(e@),
{
    proof {
        lemma_pad_lo(e@);
        lemma_pad_hi(e@);
    }
    let n = e.unicode_len();
    let mut lo: usize = 0;
    while lo < n && (e.get_char(lo) == ' ' || e.get_char(lo) == '\t')
        invariant
            lo <= n,
            n == e@.len(),
            forall|j: int| 0 <= j < lo ==> is_pad(e@[j]),
        decreases n - lo,
    {
        lo += 1;
    }
    assert(lo == pad_lo(e@)) by {
        lemma_pad_lo(e@);
        if lo < pad_lo(e@) {
            assert(is_pad(e@[lo as int]));
        }
    }
    let mut hi: usize = n;
    while hi > lo && (e.get_char(hi - 1) == ' ' || e.get_char(hi - 1) == '\t')
        invariant
            lo <= hi <= n,
            n == e@.len(),
            lo == pad_lo(e@),
            forall|j: int| hi <= j < n ==> is_pad(e@[j]),
        decreases hi,
    {
        hi -= 1;
    }
    if lo < hi {
        assert(hi == pad_hi(e@)) by {
            lemma_pad_hi(e@);
            if hi < pad_hi(e@) {
                assert(is_pad(e@[(pad_hi(e@) - 1) as int]));
            }
            if hi > pad_hi(e@) {
                assert(is_pad(e@[(hi - 1) as int]));
            }
        }
        e.substring_char(lo, hi)
    } else {
        assert(trimmed(e@) =~= Seq::<char>::empty()) by {
            if pad_lo(e@) < pad_hi(e@) {
                lemma_pad_lo(e@);
                lemma_pad_hi(e@);
                assert(is_pad(e@[pad_lo(e@) as int]));
                assert(!is_pad(e@[pad_lo(e@) as int]));
            }
        }
        let empty = e.substring_char(0, 0);
        assert(empty@ =~= Seq::<char>::empty());
        empty
    }
}

/// The refresh token carried by one cookie entry: the value after the
/// `"refresh_token="` name, once surrounding padding is dropped.
pub open spec fn entry_value(e: Seq<char>) -> Option<Seq<char>> {
    if has_prefix_spec(trimmed(e), "refresh_token="@) {
        Some(trimmed(e).skip("refresh_token="@.len() as int))
    } else {
        None
    }
}

/// Index of the first `';'` in `s`, or the length of `s` if there is none.
pub open spec fn first_semi(s: Seq<char>) -> nat
    decreases s.len(),
{
    if s.len() == 0 {
        0
    } else if s[0] == ';' {
        0
    } else {
        (1 + first_semi(s.drop_first())) as nat
    }
}

proof fn lemma_first_semi(s: Seq<char>)
    ensures
        first_semi(s) <= s.len(),
        forall|j: int| 0 <= j < first_semi(s) ==> s[j] != ';',
        first_semi(s) < s.len() ==> s[first_semi(s) as int] == ';',
    decreases s.len(),
{
    if s.len() > 0 && s[0] != ';' {
        lemma_first_semi(s.drop_first());
        assert forall|j: int| 0 <= j < first_semi(s) implies s[j] != ';' by {
            if j > 0 {
                assert(s.drop_first()[j - 1] == s[j]);
            }
        }
    }
}

/// The refresh token of a `Cookie` header value: the value of the first
/// `';'`-separated entry named `refresh_token`.
pub open spec fn refresh_cookie_of(s: Seq<char>) -> Option<Seq<char>>
    decreases s.len(),
{
    let i = first_semi(s);
    let head = s.subrange(0, i as int);
    if entry_value(head) is Some {
        entry_value(head)
    } else if i < s.len() {
        refresh_cookie_of(s.skip(i as int + 1))
    } else {
        None
    }
}

fn first_semi_index(s: &str) -> (i: usize)
    ensures
        i == first_semi(s@),
{
    proof {
        lemma_first_semi(s@);
    }
    let n = s.unicode_len();
    let mut i: usize = 0;
    while i < n
        invariant
            i <= n,
            n == s@.len(),
            forall|j: int| 0 <= j < i ==> s@[j] != ';',
        decreases n - i,
    {
        if s.get_char(i) == ';' {
            assert(i == first_semi(s@)) by {
                lemma_first_semi(s@);
                if i < first_semi(s@) {
                    assert(s@[i as int] != ';');
                }
                if i > first_semi(s@) {
                    assert(s@[first_semi(s@) as int] == ';');
                }
            }
            return i;
        }
        i += 1;
    }
    assert(i == first_semi(s@)) by {
        lemma_first_semi(s@);
        if first_semi(s@) < s@.len() {
            assert(s@[first_semi(s@) as int] == ';');
        }
    }
    i
}

/// Extract the refresh token from a `Cookie` header value.
pub fn refresh_cookie_value(cookies: &str) -> (r: Option<String>)
    ensures
        r matches Some(t) ==> refresh_cookie_of(cookies@) == Some(t@),
        r is None ==> refresh_cookie_of(cookies@) is None,
{
    let mut rest: &str = cookies;
    loop
        invariant
            refresh_cookie_of(cookies@) == refresh_cookie_of(rest@),
        decreases rest@.len(),
    {
        proof {
            lemma_first_semi(rest@);
        }
        let n = rest.unicode_len();
        let i = first_semi_index(rest);
        let head = rest.substring_char(0, i);
        let t = trim_entry(head);
        if has_prefix(t, "refresh_token=") {
            let tn = t.unicode_len();
            let np = "refresh_token=".unicode_len();
            let value = t.substring_char(np, tn);
            assert(value@ =~= trimmed(head@).skip("refresh_token="@.len() as int));
            return Some(value.to_owned());
        }
        if i < n {
            rest = rest.substring_char(i + 1, n);
        } else {
            return None;
        }
    }
}

/// The `Set-Cookie` value that carries a rotated refresh token: `HttpOnly`,
/// valid for the whole site, expiring after seven days, `SameSite=Lax`.
pub fn refresh_cookie_header(token: &str) -> (h: String)
    ensures
        h@ == "refresh_token="@ + token@ + "; HttpOnly; Path=/; Max-Age=604800; SameSite=Lax"@,
{
    let mut h = "refresh_token=".to_owned();
    h.append(token);
    h.append("; HttpOnly; Path=/; Max-Age=604800; SameSite=Lax");
    h
}

} // verus!
