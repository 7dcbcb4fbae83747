//! Verified JSON encoding of the catalog's response bodies: decimal
//! numerals, string escaping, and the book object and array shapes.

use vstd::prelude::*;
use vstd::string::{StrSliceExecFns, StringExecFns};
use crate::book::{Book, BookView};

verus! {

/// The character for the decimal digit `d`.
pub open spec fn dec_digit_char(d: int) -> char {
    if d == 0 {
        '0'
    } else if d == 1 {
        '1'
    } else if d == 2 {
        '2'
    } else if d == 3 {
        '3'
    } else if d == 4 {
        '4'
    } else if d == 5 {
        '5'
    } else if d == 6 {
        '6'
    } else if d == 7 {
        '7'
    } else if d == 8 {
        '8'
    } else {
        '9'
    }
}

/// The decimal numeral of `n`, most significant digit first, without
/// sign or padding.
pub open spec fn dec_str_of(n: int) -> Seq<char>
    decreases n,
{
    if n < 10 {
        seq![dec_digit_char(n)]
    } else {
        dec_str_of(n / 10).push(dec_digit_char(n % 10))
    }
}

/// The one-character string for the decimal digit `d`.
fn digit_str(d: u32) -> (r: &'static str)
    requires
        d < 10,
    ensures
        r@ == seq![dec_digit_char(d as int)],
{
    proof {
        reveal_strlit("0");
        reveal_strlit("1");
        reveal_strlit("2");
        reveal_strlit("3");
        reveal_strlit("4");
        reveal_strlit("5");
        reveal_strlit("6");
        reveal_strlit("7");
        reveal_strlit("8");
        reveal_strlit("9");
    }
    let r = if d == 0 {
        "0"
    } else if d == 1 {
        "1"
    } else if d == 2 {
        "2"
    } else if d == 3 {
        "3"
    } else if d == 4 {
        "4"
    } else if d == 5 {
        "5"
    } else if d == 6 {
        "6"
    } else if d == 7 {
        "7"
    } else if d == 8 {
        "8"
    } else {
        "9"
    };
    proof {
        assert(r@ =~= seq![dec_digit_char(d as int)]);
    }
    r
}

/// The digit characters of `ds` in reverse order.
spec fn rev_digit_chars(ds: Seq<u32>) -> Seq<char> {
    Seq::new(ds.len(), |i: int| dec_digit_char(ds[ds.len() - 1 - i] as int))
}

/// The decimal numeral of `n`.
pub fn u32_string(n: u32) -> (r: String)
    ensures
        r@ == dec_str_of(n as int),
{
    let mut low: Vec<u32> = Vec::new();
    let mut m: u32 = n;
    while m >= 10
        invariant
            dec_str_of(n as int) == dec_str_of(m as int) + rev_digit_chars(low@),
            forall|t: int| 0 <= t < low@.len() ==> low@[t] < 10,
        decreases m,
    {
        let ghost lowg = low@;
        let d: u32 = m % 10;
        low.push(d);
        m = m / 10;
        proof {
            assert(rev_digit_chars(low@) =~= seq![dec_digit_char(d as int)] + rev_digit_chars(
                lowg,
            ));
            assert(dec_str_of((m * 10 + d) as int) == dec_str_of(m as int).push(
                dec_digit_char(d as int),
            ));
            assert(dec_str_of(m as int).push(dec_digit_char(d as int)) + rev_digit_chars(lowg)
                =~= dec_str_of(m as int) + rev_digit_chars(low@));
        }
    }
    let mut r = String::new();
    r.append(digit_str(m));
    proof {
        assert(r@ =~= dec_str_of(m as int));
    }
    let ghost base = dec_str_of(m as int);
    let ghost rev = rev_digit_chars(low@);
    let mut j: usize = low.len();
    while j > 0
        invariant
            j <= low@.len(),
            forall|t: int| 0 <= t < low@.len() ==> low@[t] < 10,
            rev == rev_digit_chars(low@),
            rev.len() == low@.len(),
            r@ == base + rev.take(low@.len() - j),
        decreases j,
    {
        let ghost k: int = low@.len() - j;
        j -= 1;
        let d: u32 = low[j];
        r.append(digit_str(d));
        proof {
            assert(rev[k] == dec_digit_char(low@[low@.len() - 1 - k] as int));
            assert(low@[low@.len() - 1 - k] == low@[j as int]);
            assert(rev.take(k + 1) =~= rev.take(k) + seq![rev[k]]);
            assert(r@ =~= base + rev.take(k + 1));
        }
    }
    proof {
        assert(rev.take(low@.len() as int) =~= rev);
        assert(r@ == dec_str_of(n as int));
    }
    r
}

/// The decimal numeral of `y`.
pub fn u16_string(y: u16) -> (r: String)
    ensures
        r@ == dec_str_of(y as int),
{
    u32_string(y as u32)
}

/// Relies on `String::push`: appends the given character to the end
/// of the string, and nothing else.
#[verifier::external_body]
fn push_char(s: &mut String, c: char)
    ensures
        final(s)@ == old(s)@.push(c),
{
    s.push(c);
}

/// The character for the hexadecimal digit `d`, lower case.
pub open spec fn hex_digit_char(d: int) -> char {
    if d < 10 {
        dec_digit_char(d)
    } else if d == 10 {
        'a'
    } else if d == 11 {
        'b'
    } else if d == 12 {
        'c'
    } else if d == 13 {
        'd'
    } else if d == 14 {
        'e'
    } else {
        'f'
    }
}

/// The one-character string for the hexadecimal digit `d`.
fn hex_str(d: u32) -> (r: &'static str)
    requires
        d < 16,
    ensures
        r@ == seq![hex_digit_char(d as int)],
{
    proof {
        reveal_strlit("a");
        reveal_strlit("b");
        reveal_strlit("c");
        reveal_strlit("d");
        reveal_strlit("e");
        reveal_strlit("f");
    }
    let r = if d < 10 {
        digit_str(d)
    } else if d == 10 {
        "a"
    } else if d == 11 {
        "b"
    } else if d == 12 {
        "c"
    } else if d == 13 {
        "d"
    } else if d == 14 {
        "e"
    } else {
        "f"
    };
    proof {
        assert(r@ =~= seq![hex_digit_char(d as int)]);
    }
    r
}

/// How one character is written inside a JSON string: quote and
/// backslash get a backslash escape, the five control characters with
/// short names get those, any other control character is written as
/// `\u00` plus two lower-case hex digits, and everything else stands
/// as itself.
pub open spec fn json_escaped_char(c: char) -> Seq<char> {
    if c as int == 34 {
        "\\\""@
    } else if c as int == 92 {
        "\\\\"@
    } else if c as int == 8 {
        "\\b"@
    } else if c as int == 9 {
        "\\t"@
    } else if c as int == 10 {
        "\\n"@
    } else if c as int == 12 {
        "\\f"@
    } else if c as int == 13 {
        "\\r"@
    } else if (c as int) < 32 {
        "\\u00"@ + seq![hex_digit_char((c as int) / 16), hex_digit_char((c as int) % 16)]
    } else {
        seq![c]
    }
}

/// The characters of `s` written inside a JSON string.
pub open spec fn json_escaped(s: Seq<char>) -> Seq<char>
    decreases s.len(),
{
    if s.len() == 0 {
        Seq::<char>::empty()
    } else {
        json_escaped(s.drop_last()) + json_escaped_char(s.last())
    }
}

/// Appends the JSON form of the one character `c`.
fn append_escaped_char(r: &mut String, c: char)
    ensures
        final(r)@ == old(r)@ + json_escaped_char(c),
{
    let cv: u32 = c as u32;
    if cv == 34 {
        r.append("\\\"");
    } else if cv == 92 {
        r.append("\\\\");
    } else if cv == 8 {
        r.append("\\b");
    } else if cv == 9 {
        r.append("\\t");
    } else if cv == 10 {
        r.append("\\n");
    } else if cv == 12 {
        r.append("\\f");
    } else if cv == 13 {
        r.append("\\r");
    } else if cv < 32 {
        r.append("\\u00");
        r.append(hex_str(cv / 16));
        r.append(hex_str(cv % 16));
        proof {
            assert(r@ =~= old(r)@ + json_escaped_char(c));
        }
    } else {
        push_char(r, c);
        proof {
            assert(r@ =~= old(r)@ + json_escaped_char(c));
        }
    }
}

/// The string `s` as it is written inside a JSON string literal.
pub fn json_escape(s: &str) -> (r: String)
    ensures
        r@ == json_escaped(s@),
{
    let n = s.unicode_len();
    let mut r = String::new();
    proof {
        assert(s@.take(0) =~= Seq::<char>::empty());
        assert(r@ =~= json_escaped(s@.take(0)));
    }
    let mut i: usize = 0;
    while i < n
        invariant
            i <= n,
            n == s@.len(),
            r@ == json_escaped(s@.take(i as int)),
        decreases n - i,
    {
        let c = s.get_char(i);
        append_escaped_char(&mut r, c);
        proof {
            assert(s@.take(i as int + 1).drop_last() =~= s@.take(i as int));
            assert(s@.take(i as int + 1).last() == s@[i as int]);
        }
        i += 1;
    }
    proof {
        assert(s@.take(n as int) =~= s@);
    }
    r
}

/// The JSON object for one book record, with the fields in the order
/// `id`, `title`, `author`, `year` and no whitespace.
pub open spec fn json_of_book(b: BookView) -> Seq<char> {
    "{\"id\":"@ + dec_str_of(b.id as int) + ",\"title\":\""@ + json_escaped(b.title)
        + "\",\"author\":\""@ + json_escaped(b.author) + "\",\"year\":"@ + dec_str_of(
        b.year as int,
    ) + "}"@
}

/// Encodes one record as its JSON object.
pub fn book_json(b: &Book) -> (r: String)
    ensures
        r@ == json_of_book(b@),
{
    let mut r = String::new();
    r.append("{\"id\":");
    r.append(u32_string(b.id).as_str());
    r.append(",\"title\":\"");
    r.append(json_escape(b.title.as_str()).as_str());
    r.append("\",\"author\":\"");
    r.append(json_escape(b.author.as_str()).as_str());
    r.append("\",\"year\":");
    r.append(u16_string(b.year).as_str());
    r.append("}");
    proof {
        assert(r@ =~= json_of_book(b@));
    }
    r
}

/// The comma-separated JSON objects of the records, in order.
pub open spec fn json_items(s: Seq<BookView>) -> Seq<char>
    decreases s.len(),
{
    if s.len() == 0 {
        Seq::<char>::empty()
    } else if s.len() == 1 {
        json_of_book(s[0])
    } else {
        json_items(s.drop_last()) + ","@ + json_of_book(s.last())
    }
}

/// The JSON array of the records, in order and without whitespace.
pub open spec fn json_of_books(s: Seq<BookView>) -> Seq<char> {
    "["@ + json_items(s) + "]"@
}

/// Encodes the records as a JSON array, in the order given.
pub fn books_json(books: &Vec<Book>) -> (r: String)
    ensures
        r@ == json_of_books(books@.map_values(|b: Book| b@)),
{
    let ghost views = books@.map_values(|b: Book| b@);
    let mut r = String::new();
    r.append("[");
    proof {
        assert(views.take(0) =~= Seq::<BookView>::empty());
        assert(r@ =~= "["@ + json_items(views.take(0)));
    }
    let mut i: usize = 0;
    while i < books.len()
        invariant
            i <= books@.len(),
            views == books@.map_values(|b: Book| b@),
            views.len() == books@.len(),
            r@ == "["@ + json_items(views.take(i as int)),
        decreases books@.len() - i,
    {
        if i > 0 {
            r.append(",");
        }
        let bj = book_json(&books[i]);
        r.append(bj.as_str());
        proof {
            assert(views[i as int] == books@[i as int]@);
            let t = views.take(i as int + 1);
            assert(t.drop_last() =~= views.take(i as int));
            assert(t.last() == views[i as int]);
            if i == 0 {
                assert(json_items(t) == json_of_book(views[0]));
            } else {
                assert(json_items(t) == json_items(views.take(i as int)) + ","@ + json_of_book(
                    views[i as int],
                ));
            }
            assert(r@ =~= "["@ + json_items(t));
        }
        i += 1;
    }
    r.append("]");
    proof {
        assert(views.take(views.len() as int) =~= views);
        assert(r@ =~= json_of_books(views));
    }
    r
}

} // verus!
