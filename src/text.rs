//! Characters of strings: code point order, byte-sized number fields, and the search form of
//! names.
use vstd::prelude::*;

verus! {

/// The characters of `s`, in order.
pub fn chars_of(s: &str) -> (r: Vec<char>)
    ensures
        r@ == s@,
{
    let n = s.unicode_len();
    let mut r: Vec<char> = Vec::new();
    let mut i: usize = 0;
    while i < n
        invariant
            n == s@.len(),
            i <= n,
            r@ == s@.subrange(0, i as int),
        decreases n - i,
    {
        r.push(s.get_char(i));
        i = i + 1;
    }
    r
}

// ---------------------------------------------------------------------------------------------
// Lexicographic order
// ---------------------------------------------------------------------------------------------

/// `a` sorts strictly before `b`, comparing characters by code point; a proper prefix sorts
/// first. On strings this is the order of their UTF-8 bytes, which is the order of `str`.
pub open spec fn lex_less(a: Seq<char>, b: Seq<char>) -> bool
    decreases a.len(),
{
    if a.len() == 0 {
        b.len() > 0
    } else if b.len() == 0 {
        false
    } else if a[0] != b[0] {
        a[0] < b[0]
    } else {
        lex_less(a.drop_first(), b.drop_first())
    }
}

pub proof fn lemma_lex_irreflexive(a: Seq<char>)
    ensures
        !lex_less(a, a),
    decreases a.len(),
{
    if a.len() > 0 {
        lemma_lex_irreflexive(a.drop_first());
    }
}

pub proof fn lemma_lex_transitive(a: Seq<char>, b: Seq<char>, c: Seq<char>)
    requires
        lex_less(a, b),
        lex_less(b, c),
    ensures
        lex_less(a, c),
    decreases a.len(),
{
    if a.len() > 0 && b.len() > 0 && c.len() > 0 {
        if a[0] == b[0] && b[0] == c[0] {
            lemma_lex_transitive(a.drop_first(), b.drop_first(), c.drop_first());
        }
    }
}

pub proof fn lemma_lex_total(a: Seq<char>, b: Seq<char>)
    requires
        a != b,
    ensures
        lex_less(a, b) || lex_less(b, a),
    decreases a.len(),
{
    if a.len() > 0 && b.len() > 0 {
        if a[0] == b[0] {
            if a.drop_first() == b.drop_first() {
                assert(a =~= seq![a[0]] + a.drop_first());
                assert(b =~= seq![b[0]] + b.drop_first());
            }
            lemma_lex_total(a.drop_first(), b.drop_first());
        }
    } else if a.len() == 0 && b.len() == 0 {
        assert(a =~= b);
    }
}

proof fn lemma_lex_skip(a: Seq<char>, b: Seq<char>, i: int)
    requires
        0 <= i < a.len(),
        i < b.len(),
        a[i] == b[i],
    ensures
        lex_less(a.skip(i), b.skip(i)) == lex_less(a.skip(i + 1), b.skip(i + 1)),
{
    assert(a.skip(i).drop_first() =~= a.skip(i + 1));
    assert(b.skip(i).drop_first() =~= b.skip(i + 1));
}

/// Whether `a` sorts strictly before `b`.
pub fn chars_less(a: &Vec<char>, b: &Vec<char>) -> (r: bool)
    ensures
        r == lex_less(a@, b@),
{
    let mut i: usize = 0;
    assert(a@.skip(0) =~= a@);
    assert(b@.skip(0) =~= b@);
    while i < a.len() && i < b.len()
        invariant
            i <= a@.len(),
            i <= b@.len(),
            lex_less(a@, b@) == lex_less(a@.skip(i as int), b@.skip(i as int)),
        decreases a@.len() - i,
    {
        if a[i] != b[i] {
            return a[i] < b[i];
        }
        proof {
            lemma_lex_skip(a@, b@, i as int);
        }
        i = i + 1;
    }
    i == a.len() && i < b.len()
}

/// A sequence of strings in strictly increasing order, so without duplicates.
pub open spec fn strictly_sorted(s: Seq<Seq<char>>) -> bool {
    forall|i: int, j: int| 0 <= i < j < s.len() ==> lex_less(#[trigger] s[i], #[trigger] s[j])
}

/// Two strictly sorted sequences that hold the same strings are the same sequence.
pub proof fn lemma_strictly_sorted_unique(a: Seq<Seq<char>>, b: Seq<Seq<char>>)
    requires
        strictly_sorted(a),
        strictly_sorted(b),
        a.to_set() == b.to_set(),
    ensures
        a == b,
    decreases a.len(),
{
    if a.len() == 0 {
        if b.len() > 0 {
            assert(b.to_set().contains(b[0]));
        }
        assert(a =~= b);
    } else if b.len() == 0 {
        assert(a.to_set().contains(a[0]));
    } else {
        // The first elements are both the least element of the common set.
        assert(b.to_set().contains(a[0]));
        assert(a.to_set().contains(b[0]));
        let ia = choose|k: int| 0 <= k < a.len() && a[k] == b[0];
        let ib = choose|k: int| 0 <= k < b.len() && b[k] == a[0];
        if a[0] != b[0] {
            assert(ia > 0);
            assert(ib > 0);
            assert(lex_less(a[0], b[0]));
            assert(lex_less(b[0], a[0]));
            lemma_lex_transitive(a[0], b[0], a[0]);
            lemma_lex_irreflexive(a[0]);
        }
        let ta = a.drop_first();
        let tb = b.drop_first();
        assert forall|x: Seq<char>| ta.to_set().contains(x) implies tb.to_set().contains(x) by {
            let k = choose|k: int| 0 <= k < ta.len() && ta[k] == x;
            assert(a[k + 1] == x);
            assert(b.to_set().contains(x));
            let m = choose|m: int| 0 <= m < b.len() && b[m] == x;
            if m == 0 {
                assert(lex_less(a[0], a[k + 1]));
                lemma_lex_irreflexive(a[0]);
            }
            assert(tb[m - 1] == x);
        }
        assert forall|x: Seq<char>| tb.to_set().contains(x) implies ta.to_set().contains(x) by {
            let k = choose|k: int| 0 <= k < tb.len() && tb[k] == x;
            assert(b[k + 1] == x);
            assert(a.to_set().contains(x));
            let m = choose|m: int| 0 <= m < a.len() && a[m] == x;
            if m == 0 {
                assert(lex_less(b[0], b[k + 1]));
                lemma_lex_irreflexive(b[0]);
            }
            assert(ta[m - 1] == x);
        }
        assert(ta.to_set() =~= tb.to_set());
        lemma_strictly_sorted_unique(ta, tb);
        assert(a =~= seq![a[0]] + ta);
        assert(b =~= seq![b[0]] + tb);
    }
}

// ---------------------------------------------------------------------------------------------
// Unsigned bytes as written in a CSV field
// ---------------------------------------------------------------------------------------------

/// The value of one digit in the given radix (10 or 16; hex digits in either case).
pub open spec fn digit_value(c: char, radix: u32) -> Option<u32> {
    if '0' <= c && c <= '9' && (c as u32) - ('0' as u32) < radix {
        Some(((c as u32) - ('0' as u32)) as u32)
    } else if radix == 16 && 'a' <= c && c <= 'f' {
        Some(((c as u32) - ('a' as u32) + 10) as u32)
    } else if radix == 16 && 'A' <= c && c <= 'F' {
        Some(((c as u32) - ('A' as u32) + 10) as u32)
    } else {
        None
    }
}

/// The number that the digits `s` spell in `radix`, if every character is a digit.
pub open spec fn digits_value(s: Seq<char>, radix: u32) -> Option<nat>
    decreases s.len(),
{
    if s.len() == 0 {
        Some(0)
    } else {
        match (digits_value(s.drop_last(), radix), digit_value(s.last(), radix)) {
            (Some(high), Some(d)) => Some(high * (radix as nat) + (d as nat)),
            _ => None,
        }
    }
}

/// What `u8::from_str_radix` gives: an optional `+`, then at least one digit, and a value
/// that fits in a byte.
pub open spec fn radix_u8(s: Seq<char>, radix: u32) -> Option<u8> {
    let body = if s.len() > 1 && s[0] == '+' {
        s.drop_first()
    } else {
        s
    };
    if body.len() == 0 {
        None
    } else {
        match digits_value(body, radix) {
            Some(v) => if v <= 255 {
                Some(v as u8)
            } else {
                None
            },
            None => None,
        }
    }
}

/// A byte-sized field of a CSV record: hexadecimal after a `0x` prefix, decimal otherwise.
pub open spec fn u8_field_of(s: Seq<char>) -> Option<u8> {
    if s.len() >= 2 && s[0] == '0' && s[1] == 'x' {
        radix_u8(s.skip(2), 16)
    } else {
        radix_u8(s, 10)
    }
}

proof fn lemma_digits_value_grows(s: Seq<char>, radix: u32, k: int)
    requires
        radix >= 2,
        0 <= k <= s.len(),
        digits_value(s, radix) is Some,
    ensures
        digits_value(s.subrange(0, k), radix) is Some,
        digits_value(s.subrange(0, k), radix)->0 <= digits_value(s, radix)->0,
    decreases s.len(),
{
    if k < s.len() {
        assert(s.drop_last().subrange(0, k) =~= s.subrange(0, k));
        lemma_digits_value_grows(s.drop_last(), radix, k);
        let high = digits_value(s.drop_last(), radix)->0;
        assert(high <= high * (radix as nat)) by (nonlinear_arith)
            requires
                radix >= 2,
        ;
    } else {
        assert(s.subrange(0, k) =~= s);
    }
}

fn digit_value_exec(c: char, radix: u32) -> (r: Option<u32>)
    ensures
        r == digit_value(c, radix),
{
    if '0' <= c && c <= '9' && (c as u32) - ('0' as u32) < radix {
        Some((c as u32) - ('0' as u32))
    } else if radix == 16 && 'a' <= c && c <= 'f' {
        Some((c as u32) - ('a' as u32) + 10)
    } else if radix == 16 && 'A' <= c && c <= 'F' {
        Some((c as u32) - ('A' as u32) + 10)
    } else {
        None
    }
}

fn radix_u8_exec(s: &Vec<char>, start: usize, radix: u32) -> (r: Option<u8>)
    requires
        start <= s@.len(),
        radix == 10 || radix == 16,
    ensures
        r == radix_u8(s@.skip(start as int), radix),
{
    let ghost t = s@.skip(start as int);
    let mut i: usize = start;
    if s.len() - start > 1 && s[start] == '+' {
        i = start + 1;
    }
    let ghost body = s@.skip(i as int);
    assert(body =~= (if t.len() > 1 && t[0] == '+' {
        t.drop_first()
    } else {
        t
    }));
    if i == s.len() {
        return None;
    }
    let body_start = i;
    let mut acc: u32 = 0;
    while i < s.len()
        invariant
            body_start <= i <= s@.len(),
            body == s@.skip(body_start as int),
            body.len() > 0,
            radix_u8(s@.skip(start as int), radix) == (match digits_value(body, radix) {
                Some(v) => if v <= 255 {
                    Some(v as u8)
                } else {
                    None
                },
                None => None,
            }),
            radix == 10 || radix == 16,
            acc <= 255,
            digits_value(s@.subrange(body_start as int, i as int), radix) == Some(acc as nat),
        decreases s@.len() - i,
    {
        let ghost pre = s@.subrange(body_start as int, i as int);
        let ghost next = s@.subrange(body_start as int, i as int + 1);
        assert(next.drop_last() =~= pre);
        match digit_value_exec(s[i], radix) {
            Some(d) => {
                assert(digits_value(next, radix) == Some((acc * radix + d) as nat));
                if acc * radix + d > 255 {
                    proof {
                        if digits_value(body, radix) is Some {
                            assert(body.subrange(0, i - body_start + 1) =~= next);
                            lemma_digits_value_grows(body, radix, i - body_start + 1);
                        }
                        assert(body.len() > 0);
                    }
                    return None;
                }
                acc = acc * radix + d;
            },
            None => {
                proof {
                    assert(next.last() == s@[i as int]);
                    assert(digits_value(next, radix) is None);
                    if digits_value(body, radix) is Some {
                        assert(body.subrange(0, i - body_start + 1) =~= next);
                        lemma_digits_value_grows(body, radix, i - body_start + 1);
                    }
                    assert(body.len() > 0);
                }
                return None;
            },
        }
        i = i + 1;
    }
    assert(s@.subrange(body_start as int, s@.len() as int) =~= body);
    Some(acc as u8)
}

/// Reads a byte-sized number from a CSV field.
pub fn parse_u8_field(s: &str) -> (r: Option<u8>)
    ensures
        r == u8_field_of(s@),
{
    let cs = chars_of(s);
    if cs.len() >= 2 && cs[0] == '0' && cs[1] == 'x' {
        radix_u8_exec(&cs, 2, 16)
    } else {
        assert(cs@.skip(0) =~= cs@);
        radix_u8_exec(&cs, 0, 10)
    }
}

// ---------------------------------------------------------------------------------------------
// Search form
// ---------------------------------------------------------------------------------------------

/// ASCII letters, digits and `_` are word characters.
pub open spec fn is_word_char(c: char) -> bool {
    ('a' <= c && c <= 'z') || ('A' <= c && c <= 'Z') || ('0' <= c && c <= '9') || c == '_'
}

/// A word character in ASCII lower case; any other character becomes a space.
pub open spec fn search_char(c: char) -> char {
    if 'A' <= c && c <= 'Z' {
        ((c as u32) + 32) as char
    } else if is_word_char(c) {
        c
    } else {
        ' '
    }
}

/// The form in which names and queries are compared by the fuzzy search.
pub open spec fn search_form(s: Seq<char>) -> Seq<char> {
    s.map_values(|c: char| search_char(c))
}

fn search_char_exec(c: char) -> (r: char)
    ensures
        r == search_char(c),
{
    if 'A' <= c && c <= 'Z' {
        ((c as u8) + 32) as char
    } else if ('a' <= c && c <= 'z') || ('0' <= c && c <= '9') || c == '_' {
        c
    } else {
        ' '
    }
}

/// Replaces each character that is not an ASCII letter, digit or `_` by a space, and lower
/// cases the rest.
pub fn to_search_form(s: &str) -> (r: Vec<char>)
    ensures
        r@ == search_form(s@),
{
    let cs = chars_of(s);
    let mut r: Vec<char> = Vec::new();
    let mut i: usize = 0;
    while i < cs.len()
        invariant
            i <= cs@.len(),
            cs@ == s@,
            r@ == search_form(s@.subrange(0, i as int)),
        decreases cs@.len() - i,
    {
        r.push(search_char_exec(cs[i]));
        i = i + 1;
        assert(search_form(s@.subrange(0, i as int)) =~= search_form(
            s@.subrange(0, i - 1 as int),
        ).push(search_char(s@[i - 1])));
    }
    assert(s@.subrange(0, i as int) =~= s@);
    r
}

} // verus!
