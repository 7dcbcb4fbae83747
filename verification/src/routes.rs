//! Route matching for the HTTP surface: exact method-plus-path
//! dispatch, with the path identifier parsed as an unsigned integer.

use vstd::prelude::*;
use vstd::string::StrSliceExecFns;

verus! {

/// Where a request is dispatched.  `BadRequest` is the documented
/// choice for a get-by-id path whose segment is not an unsigned
/// integer in range.
#[derive(Clone, Copy, PartialEq, Eq, Structural, Debug)]
pub enum Route {
    /// `GET /api/health`
    Health,
    /// `GET /api/books`
    ListBooks,
    /// `GET /api/books/{id}` with a well-formed identifier
    GetBook(u32),
    /// a get-by-id path whose segment is not a decimal `u32`
    BadRequest,
    /// no route matches the path
    NotFound,
    /// the path matches a route but the method is not `GET`
    MethodNotAllowed,
}

/// Is `c` a decimal digit?
pub open spec fn is_digit(c: char) -> bool {
    48 <= c as int <= 57
}

/// The numeric value of the digit `c`.
pub open spec fn digit_val(c: char) -> int {
    c as int - 48
}

/// Does `s` consist of decimal digits only?
pub open spec fn all_digits(s: Seq<char>) -> bool {
    forall|i: int| 0 <= i < s.len() ==> is_digit(#[trigger] s[i])
}

/// The value of `s` read as a decimal numeral.
pub open spec fn dec_val(s: Seq<char>) -> int
    decreases s.len(),
{
    if s.len() == 0 {
        0
    } else {
        dec_val(s.drop_last()) * 10 + digit_val(s.last())
    }
}

/// A digit string has a non-negative value.
proof fn lemma_dec_val_nonneg(s: Seq<char>)
    requires
        all_digits(s),
    ensures
        dec_val(s) >= 0,
    decreases s.len(),
{
    if s.len() > 0 {
        assert(all_digits(s.drop_last())) by {
            assert(forall|i: int| 0 <= i < s.len() - 1 ==> s.drop_last()[i] == s[i]);
        }
        lemma_dec_val_nonneg(s.drop_last());
        assert(is_digit(s.last()));
    }
}

/// Reading more digits never lowers the value: the value of a prefix
/// is at most the value of the whole digit string.
proof fn lemma_dec_val_take_le(s: Seq<char>, m: int)
    requires
        all_digits(s),
        0 <= m <= s.len(),
    ensures
        dec_val(s.take(m)) <= dec_val(s),
    decreases s.len() - m,
{
    if m == s.len() {
        assert(s.take(m) =~= s);
    } else {
        assert(s.take(m + 1).drop_last() =~= s.take(m));
        assert(s.take(m + 1).last() == s[m]);
        assert(all_digits(s.take(m))) by {
            assert(forall|i: int| 0 <= i < m ==> s.take(m)[i] == s[i]);
        }
        lemma_dec_val_nonneg(s.take(m));
        assert(is_digit(s[m]));
        assert(dec_val(s.take(m + 1)) == dec_val(s.take(m)) * 10 + digit_val(s[m]));
        lemma_dec_val_take_le(s, m + 1);
    }
}

/// Are the two strings equal, character for character?
pub fn str_eq(a: &str, b: &str) -> (r: bool)
    ensures
        r == (a@ == b@),
{
    let na = a.unicode_len();
    let nb = b.unicode_len();
    if na != nb {
        return false;
    }
    let mut i: usize = 0;
    while i < na
        invariant
            i <= na,
            na == a@.len(),
            na == b@.len(),
            forall|j: int| 0 <= j < i ==> a@[j] == b@[j],
        decreases na - i,
    {
        if a.get_char(i) != b.get_char(i) {
            proof {
                if a@ == b@ {
                    assert(a@[i as int] == b@[i as int]);
                }
            }
            return false;
        }
        i += 1;
    }
    proof {
        assert(a@ =~= b@);
    }
    true
}

/// Does `s` start with `p`?
pub fn has_prefix(s: &str, p: &str) -> (r: bool)
    ensures
        r == (s@.len() >= p@.len() && s@.subrange(0, p@.len() as int) == p@),
{
    let np = p.unicode_len();
    let ns = s.unicode_len();
    if ns < np {
        return false;
    }
    let mut i: usize = 0;
    while i < np
        invariant
            i <= np,
            np == p@.len(),
            ns == s@.len(),
            ns >= np,
            forall|j: int| 0 <= j < i ==> s@[j] == p@[j],
        decreases np - i,
    {
        if s.get_char(i) != p.get_char(i) {
            proof {
                if s@.subrange(0, np as int) == p@ {
                    assert(s@.subrange(0, np as int)[i as int] == p@[i as int]);
                }
            }
            return false;
        }
        i += 1;
    }
    proof {
        assert(s@.subrange(0, np as int) =~= p@);
    }
    true
}

/// Parses the characters of `s` from position `start` to the end as a
/// decimal `u32`.  Succeeds exactly when that segment is non-empty,
/// all digits, and its value fits in a `u32`; the result is then that
/// value.
pub fn parse_u32_from(s: &str, start: usize) -> (r: Option<u32>)
    requires
        start <= s@.len(),
    ensures
        ({
            let seg = s@.subrange(start as int, s@.len() as int);
            &&& (r is Some <==> seg.len() > 0 && all_digits(seg) && dec_val(seg)
                <= u32::MAX as int)
            &&& (r matches Some(v) ==> v as int == dec_val(seg))
        }),
{
    let ghost seg = s@.subrange(start as int, s@.len() as int);
    let n = s.unicode_len();
    if start >= n {
        return None;
    }
    let mut acc: u32 = 0;
    let mut i: usize = start;
    while i < n
        invariant
            start <= i <= n,
            n == s@.len(),
            start < n,
            seg == s@.subrange(start as int, s@.len() as int),
            seg.len() == n - start,
            forall|j: int| 0 <= j < seg.len() ==> seg[j] == s@[start + j],
            all_digits(seg.take(i - start)),
            acc as int == dec_val(seg.take(i - start)),
        decreases n - i,
    {
        let ghost k: int = i - start;
        let c = s.get_char(i);
        let cv = c as u32;
        proof {
            assert(seg[k] == s@[i as int]);
        }
        if cv < 48 || cv > 57 {
            proof {
                assert(!is_digit(seg[k]));
            }
            return None;
        }
        let d = cv - 48;
        let wide: u64 = (acc as u64) * 10 + (d as u64);
        proof {
            assert(seg.take(k + 1).drop_last() =~= seg.take(k));
            assert(seg.take(k + 1).last() == seg[k]);
            assert(dec_val(seg.take(k + 1)) == dec_val(seg.take(k)) * 10 + digit_val(seg[k]));
            assert(wide as int == dec_val(seg.take(k + 1)));
            assert(all_digits(seg.take(k + 1))) by {
                assert(forall|j: int| 0 <= j < k ==> seg.take(k + 1)[j] == seg.take(k)[j]);
                assert(seg.take(k + 1)[k] == seg[k]);
            }
        }
        if wide > 0xFFFF_FFFF {
            proof {
                if all_digits(seg) {
                    lemma_dec_val_take_le(seg, k + 1);
                }
            }
            return None;
        }
        acc = wide as u32;
        i += 1;
    }
    proof {
        assert(seg.take(n - start) =~= seg);
    }
    Some(acc)
}

/// The route for a request, by exact method-plus-path match.
pub open spec fn spec_route(m: Seq<char>, p: Seq<char>) -> Route {
    if p == "/api/health"@ {
        if m == "GET"@ {
            Route::Health
        } else {
            Route::MethodNotAllowed
        }
    } else if p == "/api/books"@ {
        if m == "GET"@ {
            Route::ListBooks
        } else {
            Route::MethodNotAllowed
        }
    } else if p.len() > 11 && p.subrange(0, 11) == "/api/books/"@ {
        if m == "GET"@ {
            let seg = p.subrange(11, p.len() as int);
            if all_digits(seg) && dec_val(seg) <= u32::MAX as int {
                Route::GetBook(dec_val(seg) as u32)
            } else {
                Route::BadRequest
            }
        } else {
            Route::MethodNotAllowed
        }
    } else {
        Route::NotFound
    }
}

/// Dispatches a request: `GET /api/health`, `GET /api/books` and
/// `GET /api/books/{id}` reach their handlers; an id segment that is
/// not a decimal `u32` is a bad request; any other path is unknown,
/// and a known path with another method is not allowed.
pub fn route_of(method: &str, path: &str) -> (r: Route)
    ensures
        r == spec_route(method@, path@),
{
    proof {
        reveal_strlit("GET");
        reveal_strlit("/api/health");
        reveal_strlit("/api/books");
        reveal_strlit("/api/books/");
    }
    let is_get = str_eq(method, "GET");
    if str_eq(path, "/api/health") {
        if is_get {
            Route::Health
        } else {
            Route::MethodNotAllowed
        }
    } else if str_eq(path, "/api/books") {
        if is_get {
            Route::ListBooks
        } else {
            Route::MethodNotAllowed
        }
    } else {
        let n = path.unicode_len();
        if n > 11 && has_prefix(path, "/api/books/") {
            if is_get {
                match parse_u32_from(path, 11) {
                    Some(v) => Route::GetBook(v),
                    None => Route::BadRequest,
                }
            } else {
                Route::MethodNotAllowed
            }
        } else {
            Route::NotFound
        }
    }
}

} // verus!
