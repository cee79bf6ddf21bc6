//! Verified text helpers: character-level reversal, decimal formatting,
//! trimming, whitespace collapsing and truncation. The few places where std
//! offers no specification (pushing a character, comparing string slices,
//! the Unicode whitespace test) are trusted wrappers; everything built on
//! them is verified.
use vstd::prelude::*;

verus! {

/// Relies on `String::push`: appends exactly the given character.
#[verifier::external_body]
pub fn push_char(s: &mut String, c: char)
    ensures
        final(s)@ == old(s)@.push(c),
{
    s.push(c)
}

/// Relies on `<str as PartialEq>::eq`: true exactly when the two slices hold
/// the same characters.
#[verifier::external_body]
pub fn str_eq(a: &str, b: &str) -> (r: bool)
    ensures
        r == (a@ == b@),
{
    a == b
}

/// Whether `char::is_whitespace` accepts the character; the Unicode
/// `White_Space` property, a fixed table.
pub uninterp spec fn char_whitespace(c: char) -> bool;

/// Relies on `char::is_whitespace`: the Unicode `White_Space` test, a
/// function of the character alone. The documented table plainly gives the
/// concrete clauses: space, tab and the two line ends are whitespace, and no
/// printable ASCII character besides space is.
#[verifier::external_body]
pub fn char_is_whitespace(c: char) -> (r: bool)
    ensures
        r == char_whitespace(c),
        c == ' ' || c == '\t' || c == '\n' || c == '\r' ==> r,
        '!' <= c <= '~' ==> !r,
{
    c.is_whitespace()
}

/// The digit character for one decimal digit.
pub open spec fn dec_digit(d: int) -> char {
    if d == 0 {
        '0'
    } else if d == 1 {
        '1'
    } else if d == 2 {
        '2'
    } else if d == 3 {
        '3'
    } else if d == 4 {
        '4'
    } else if d == 5 {
        '5'
    } else if d == 6 {
        '6'
    } else if d == 7 {
        '7'
    } else if d == 8 {
        '8'
    } else {
        '9'
    }
}

/// The decimal rendering of a non-negative integer, most significant digit
/// first, no leading zeros (except for zero itself).
pub open spec fn dec_str(n: int) -> Seq<char>
    decreases n,
{
    if n < 10 {
        seq![dec_digit(n)]
    } else {
        dec_str(n / 10).push(dec_digit(n % 10))
    }
}

fn dec_digit_exec(d: u64) -> (c: char)
    requires
        d < 10,
    ensures
        c == dec_digit(d as int),
{
    if d == 0 {
        '0'
    } else if d == 1 {
        '1'
    } else if d == 2 {
        '2'
    } else if d == 3 {
        '3'
    } else if d == 4 {
        '4'
    } else if d == 5 {
        '5'
    } else if d == 6 {
        '6'
    } else if d == 7 {
        '7'
    } else if d == 8 {
        '8'
    } else {
        '9'
    }
}

/// Renders a number in decimal.
pub fn u64_to_string(n: u64) -> (r: String)
    ensures
        r@ == dec_str(n as int),
    decreases n,
{
    if n < 10 {
        let mut s = String::new();
        push_char(&mut s, dec_digit_exec(n));
        s
    } else {
        let mut s = u64_to_string(n / 10);
        push_char(&mut s, dec_digit_exec(n % 10));
        s
    }
}

/// Reverses the order of the characters (code points, never bytes) of a
/// string.
pub fn reverse_chars(s: &str) -> (r: String)
    ensures
        r@ == s@.reverse(),
{
    let n = s.unicode_len();
    let mut out = String::new();
    let mut i = n;
    while i > 0
        invariant
            i <= n,
            n == s@.len(),
            out@.len() == n - i,
            forall|k: int| 0 <= k < out@.len() ==> out@[k] == s@[n - 1 - k],
        decreases i,
    {
        i = i - 1;
        push_char(&mut out, s.get_char(i));
    }
    proof {
        assert(out@ =~= s@.reverse());
    }
    out
}

/// Law: reversing a sequence of characters twice gives back the original
/// sequence, for every sequence.
pub proof fn lemma_reverse_involution(s: Seq<char>)
    ensures
        s.reverse().reverse() == s,
{
    assert(s.reverse().reverse() =~= s);
}

/// Whether `p` is a prefix of `s`.
pub open spec fn has_prefix(s: Seq<char>, p: Seq<char>) -> bool {
    p.len() <= s.len() && s.subrange(0, p.len() as int) == p
}

/// Whether the string starts with the given prefix, by characters.
pub fn str_starts_with(s: &str, prefix: &str) -> (r: bool)
    ensures
        r == has_prefix(s@, prefix@),
{
    let n = s.unicode_len();
    let m = prefix.unicode_len();
    if m > n {
        proof {
            assert(!has_prefix(s@, prefix@));
        }
        return false;
    }
    let mut i: usize = 0;
    while i < m
        invariant
            0 <= i <= m <= n,
            n == s@.len(),
            m == prefix@.len(),
            forall|k: int| 0 <= k < i ==> s@[k] == prefix@[k],
        decreases m - i,
    {
        if s.get_char(i) != prefix.get_char(i) {
            proof {
                assert(s@.subrange(0, m as int)[i as int] != prefix@[i as int]);
            }
            return false;
        }
        i = i + 1;
    }
    proof {
        assert(s@.subrange(0, m as int) =~= prefix@);
    }
    true
}

/// The first index at or after `i` holding the character `c` (the length if
/// there is none).
pub open spec fn find_char_idx(s: Seq<char>, c: char, i: int) -> int
    decreases s.len() - i,
{
    if i < 0 || i >= s.len() {
        s.len() as int
    } else if s[i] == c {
        i
    } else {
        find_char_idx(s, c, i + 1)
    }
}

/// The first index at or after `i` holding a non-whitespace character (the
/// length if there is none).
pub open spec fn trim_start_idx(s: Seq<char>, i: int) -> int
    decreases s.len() - i,
{
    if i < 0 || i >= s.len() {
        s.len() as int
    } else if char_whitespace(s[i]) {
        trim_start_idx(s, i + 1)
    } else {
        i
    }
}

/// One past the last index before `j` holding a non-whitespace character
/// (zero if there is none).
pub open spec fn trim_end_idx(s: Seq<char>, j: int) -> int
    decreases j,
{
    if j <= 0 || j > s.len() {
        0
    } else if char_whitespace(s[j - 1]) {
        trim_end_idx(s, j - 1)
    } else {
        j
    }
}

/// The string with leading and trailing whitespace removed.
pub open spec fn trim_spec(s: Seq<char>) -> Seq<char> {
    let a = trim_start_idx(s, 0);
    let b = trim_end_idx(s, s.len() as int);
    if a <= b {
        s.subrange(a, b)
    } else {
        Seq::empty()
    }
}

proof fn lemma_trim_end_le(s: Seq<char>, j: int)
    requires
        0 <= j <= s.len(),
    ensures
        0 <= trim_end_idx(s, j) <= j,
    decreases j,
{
    if j > 0 && char_whitespace(s[j - 1]) {
        lemma_trim_end_le(s, j - 1);
    }
}

/// Removes leading and trailing whitespace, by characters.
pub fn trim(s: &str) -> (r: &str)
    ensures
        r@ == trim_spec(s@),
{
    let n = s.unicode_len();
    let mut a: usize = 0;
    while a < n && char_is_whitespace(s.get_char(a))
        invariant
            0 <= a <= n,
            n == s@.len(),
            trim_start_idx(s@, 0) == trim_start_idx(s@, a as int),
        decreases n - a,
    {
        a = a + 1;
    }
    let mut b: usize = n;
    while b > a && char_is_whitespace(s.get_char(b - 1))
        invariant
            a <= b <= n,
            n == s@.len(),
            trim_start_idx(s@, 0) == a,
            trim_end_idx(s@, n as int) == trim_end_idx(s@, b as int),
        decreases b,
    {
        b = b - 1;
    }
    proof {
        if b == a {
            lemma_trim_end_le(s@, a as int);
            assert(s@.subrange(a as int, b as int) =~= Seq::<char>::empty());
            if trim_start_idx(s@, 0) <= trim_end_idx(s@, s@.len() as int) {
                assert(s@.subrange(trim_start_idx(s@, 0), trim_end_idx(s@, s@.len() as int))
                    =~= Seq::<char>::empty());
            }
        }
    }
    s.substring_char(a, b)
}

/// The string with every maximal run of leading `c` removed.
pub open spec fn skip_leading(s: Seq<char>, c: char) -> Seq<char>
    decreases s.len(),
{
    if s.len() > 0 && s[0] == c {
        skip_leading(s.drop_first(), c)
    } else {
        s
    }
}

/// Removes every leading occurrence of the character.
pub fn trim_start_matches_char(s: &str, c: char) -> (r: &str)
    ensures
        r@ == skip_leading(s@, c),
{
    let n = s.unicode_len();
    proof {
        assert(s@.subrange(0, n as int) =~= s@);
    }
    let mut a: usize = 0;
    while a < n && s.get_char(a) == c
        invariant
            0 <= a <= n,
            n == s@.len(),
            skip_leading(s@, c) == skip_leading(s@.subrange(a as int, n as int), c),
        decreases n - a,
    {
        proof {
            let t = s@.subrange(a as int, n as int);
            assert(t.drop_first() =~= s@.subrange(a as int + 1, n as int));
        }
        a = a + 1;
    }
    proof {
        let t = s@.subrange(a as int, n as int);
        if a < n {
            assert(skip_leading(t, c) == t);
        } else {
            assert(t =~= Seq::<char>::empty());
        }
    }
    s.substring_char(a, n)
}

/// The collapse of the first `n` characters of `s`: the output so far and
/// whether a whitespace run is pending. Whitespace runs become a single
/// space between words; leading and trailing whitespace disappears.
pub open spec fn collapse_prefix(s: Seq<char>, n: int) -> (Seq<char>, bool)
    decreases n,
{
    if n <= 0 {
        (Seq::empty(), false)
    } else {
        let (acc, pending) = collapse_prefix(s, n - 1);
        let c = s[n - 1];
        if char_whitespace(c) {
            (acc, true)
        } else if pending && acc.len() > 0 {
            (acc.push(' ').push(c), false)
        } else {
            (acc.push(c), false)
        }
    }
}

/// The string with every whitespace run collapsed to one space and outer
/// whitespace removed; what splitting on whitespace and joining the pieces
/// with single spaces produces.
pub open spec fn collapse_ws(s: Seq<char>) -> Seq<char> {
    collapse_prefix(s, s.len() as int).0
}

/// Collapses whitespace runs to single spaces and drops outer whitespace.
pub fn collapse_whitespace(s: &str) -> (r: String)
    ensures
        r@ == collapse_ws(s@),
{
    let n = s.unicode_len();
    let mut out = String::new();
    let mut pending = false;
    let mut nonempty = false;
    let mut i: usize = 0;
    while i < n
        invariant
            i <= n,
            n == s@.len(),
            nonempty == (out@.len() > 0),
            (out@, pending) == collapse_prefix(s@, i as int),
        decreases n - i,
    {
        let c = s.get_char(i);
        if char_is_whitespace(c) {
            pending = true;
        } else if pending && nonempty {
            push_char(&mut out, ' ');
            push_char(&mut out, c);
            pending = false;
        } else {
            push_char(&mut out, c);
            pending = false;
            nonempty = true;
        }
        i = i + 1;
    }
    out
}

/// The chunks concatenated, each followed by one space.
pub open spec fn concat_spaced(ts: Seq<Seq<char>>) -> Seq<char>
    decreases ts.len(),
{
    if ts.len() == 0 {
        Seq::empty()
    } else {
        ts[0] + seq![' '] + concat_spaced(ts.drop_first())
    }
}

/// The chunks joined with a single space between consecutive chunks.
pub open spec fn join_spaced(ts: Seq<Seq<char>>) -> Seq<char>
    decreases ts.len(),
{
    if ts.len() == 0 {
        Seq::empty()
    } else if ts.len() == 1 {
        ts[0]
    } else {
        ts[0] + seq![' '] + join_spaced(ts.drop_first())
    }
}

/// Appends every chunk to `out`, each followed by one space.
pub fn append_spaced(out: &mut String, ts: &Vec<String>)
    ensures
        final(out)@ == old(out)@ + concat_spaced(ts.deep_view()),
{
    let mut i: usize = 0;
    while i < ts.len()
        invariant
            i <= ts@.len(),
            out@ == old(out)@ + concat_spaced(ts.deep_view().take(i as int)),
        decreases ts@.len() - i,
    {
        out.append(ts[i].as_str());
        push_char(out, ' ');
        proof {
            let dv = ts.deep_view();
            lemma_concat_spaced_snoc(dv, i as int);
        }
        i = i + 1;
    }
    proof {
        assert(ts.deep_view().take(ts@.len() as int) =~= ts.deep_view());
    }
}

proof fn lemma_concat_spaced_snoc(ts: Seq<Seq<char>>, i: int)
    requires
        0 <= i < ts.len(),
    ensures
        concat_spaced(ts.take(i + 1)) == concat_spaced(ts.take(i)) + ts[i] + seq![' '],
    decreases i,
{
    if i == 0 {
        let t = ts.take(1);
        assert(t.len() == 1);
        assert(t[0] == ts[0]);
        assert(t.drop_first() =~= Seq::<Seq<char>>::empty());
        assert(concat_spaced(Seq::<Seq<char>>::empty()) == Seq::<char>::empty());
        assert(concat_spaced(t) == t[0] + seq![' '] + Seq::<char>::empty());
        assert(ts[0] + seq![' '] + Seq::<char>::empty() =~= ts[0] + seq![' ']);
        assert(ts.take(0).len() == 0);
        assert(concat_spaced(ts.take(0)) == Seq::<char>::empty());
        assert(Seq::<char>::empty() + ts[0] + seq![' '] =~= ts[0] + seq![' ']);
    } else {
        lemma_concat_spaced_snoc(ts.drop_first(), i - 1);
        assert(ts.take(i + 1).drop_first() =~= ts.drop_first().take(i));
        assert(ts.take(i).drop_first() =~= ts.drop_first().take(i - 1));
        assert(ts.take(i + 1)[0] == ts[0]);
        assert(ts.take(i)[0] == ts[0]);
        assert(ts.drop_first()[i - 1] == ts[i]);
        assert(concat_spaced(ts.take(i + 1)) == ts[0] + seq![' '] + concat_spaced(
            ts.drop_first().take(i),
        ));
        assert(ts[0] + seq![' '] + (concat_spaced(ts.drop_first().take(i - 1)) + ts[i]
            + seq![' ']) =~= (ts[0] + seq![' '] + concat_spaced(ts.drop_first().take(i - 1)))
            + ts[i] + seq![' ']);
    }
}

/// Joins the chunks with single spaces.
pub fn join_strings_spaced(ts: &Vec<String>) -> (r: String)
    ensures
        r@ == join_spaced(ts.deep_view()),
{
    let mut out = String::new();
    let mut i: usize = 0;
    while i < ts.len()
        invariant
            i <= ts@.len(),
            out@ == join_spaced(ts.deep_view().take(i as int)),
        decreases ts@.len() - i,
    {
        if i > 0 {
            push_char(&mut out, ' ');
        }
        out.append(ts[i].as_str());
        proof {
            lemma_join_spaced_snoc(ts.deep_view(), i as int);
        }
        i = i + 1;
    }
    proof {
        assert(ts.deep_view().take(ts@.len() as int) =~= ts.deep_view());
    }
    out
}

proof fn lemma_join_spaced_snoc(ts: Seq<Seq<char>>, i: int)
    requires
        0 <= i < ts.len(),
    ensures
        i == 0 ==> join_spaced(ts.take(1)) == ts[0],
        i > 0 ==> join_spaced(ts.take(i + 1)) == join_spaced(ts.take(i)) + seq![' '] + ts[i],
    decreases i,
{
    if i == 0 {
        assert(ts.take(1).len() == 1);
        assert(ts.take(1)[0] == ts[0]);
    } else if i == 1 {
        let t = ts.take(2);
        let u = ts.take(1);
        let d = t.drop_first();
        assert(t.len() == 2);
        assert(u.len() == 1);
        assert(t[0] == ts[0]);
        assert(u[0] == ts[0]);
        assert(d.len() == 1);
        assert(d[0] == ts[1]);
        assert(join_spaced(d) == d[0]);
        assert(join_spaced(t) == t[0] + seq![' '] + join_spaced(d));
        assert(join_spaced(u) == u[0]);
    } else {
        lemma_join_spaced_snoc(ts.drop_first(), i - 1);
        assert(ts.take(i + 1).drop_first() =~= ts.drop_first().take(i));
        assert(ts.take(i).drop_first() =~= ts.drop_first().take(i - 1));
        assert(ts.take(i + 1)[0] == ts[0]);
        assert(ts.take(i)[0] == ts[0]);
        assert(ts.drop_first()[i - 1] == ts[i]);
        assert(ts.take(i + 1).len() == i + 1);
        assert(ts.take(i).len() == i);
        assert(ts[0] + seq![' '] + (join_spaced(ts.drop_first().take(i - 1)) + seq![' ']
            + ts[i]) =~= (ts[0] + seq![' '] + join_spaced(ts.drop_first().take(i - 1)))
            + seq![' '] + ts[i]);
    }
}

} // verus!
