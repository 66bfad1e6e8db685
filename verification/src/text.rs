//! Character-level text handling: splitting on a separator, dropping a
//! character, and reading and writing unsigned decimal numbers.
use vstd::prelude::*;

verus! {

// ---------------------------------------------------------------------------
// Specifications
// ---------------------------------------------------------------------------

/// Splits `s` at every occurrence of `sep`, as `str::split` with a `char`
/// pattern does: the result always has one more piece than `s` has
/// occurrences of `sep`, and the pieces never hold `sep`.
pub open spec fn split_on(s: Seq<char>, sep: char) -> Seq<Seq<char>>
    decreases s.len(),
{
    if s.len() == 0 {
        seq![Seq::<char>::empty()]
    } else {
        let prev = split_on(s.drop_last(), sep);
        if s.last() == sep {
            prev.push(Seq::<char>::empty())
        } else {
            prev.update(prev.len() - 1, prev.last().push(s.last()))
        }
    }
}

/// Joins the pieces with `sep` between each two neighbours.
pub open spec fn join_with(pieces: Seq<Seq<char>>, sep: char) -> Seq<char>
    decreases pieces.len(),
{
    if pieces.len() == 0 {
        Seq::<char>::empty()
    } else if pieces.len() == 1 {
        pieces[0]
    } else {
        join_with(pieces.drop_last(), sep).push(sep) + pieces.last()
    }
}

/// The piece with index `k` of `split_on(s, sep)`, or the empty text where
/// there are not that many pieces.
pub open spec fn piece(s: Seq<char>, sep: char, k: int) -> Seq<char> {
    let p = split_on(s, sep);
    if 0 <= k < p.len() {
        p[k]
    } else {
        Seq::<char>::empty()
    }
}

/// `s` with every occurrence of `c` taken out, the rest kept in order.
pub open spec fn remove_char(s: Seq<char>, c: char) -> Seq<char>
    decreases s.len(),
{
    if s.len() == 0 {
        Seq::<char>::empty()
    } else {
        let prev = remove_char(s.drop_last(), c);
        if s.last() == c {
            prev
        } else {
            prev.push(s.last())
        }
    }
}

/// `p` occurs in `s` at position `i`.
pub open spec fn occurs_at(s: Seq<char>, p: Seq<char>, i: int) -> bool {
    0 <= i && i + p.len() <= s.len() && s.subrange(i, i + p.len()) == p
}

/// `p` occurs somewhere in `s`.
pub open spec fn contains_text(s: Seq<char>, p: Seq<char>) -> bool {
    exists|i: int| occurs_at(s, p, i)
}

/// `s` begins with `p`.
pub open spec fn starts_with(s: Seq<char>, p: Seq<char>) -> bool {
    occurs_at(s, p, 0)
}

/// An ASCII decimal digit.
pub open spec fn is_digit(c: char) -> bool {
    '0' <= c && c <= '9'
}

/// The number an ASCII digit stands for.
pub open spec fn digit_value(c: char) -> nat {
    (c as int - '0' as int) as nat
}

/// The digit character for a number below ten.
pub open spec fn digit_char(d: nat) -> char {
    (d + '0' as int) as char
}

/// Every character of `s` is a decimal digit.
pub open spec fn all_digits(s: Seq<char>) -> bool {
    forall|i: int| 0 <= i < s.len() ==> is_digit(#[trigger] s[i])
}

/// The value of a run of decimal digits, most significant first.
pub open spec fn digits_value(s: Seq<char>) -> nat
    decreases s.len(),
{
    if s.len() == 0 {
        0
    } else {
        digits_value(s.drop_last()) * 10 + digit_value(s.last())
    }
}

/// The digits that follow an optional leading `+`.
pub open spec fn unsigned_body(s: Seq<char>) -> Seq<char> {
    if s.len() > 0 && s[0] == '+' {
        s.drop_first()
    } else {
        s
    }
}

/// What `usize::from_str_radix(s, 10)` gives: an optional `+`, then one or
/// more decimal digits whose value fits in a `usize`; anything else is
/// refused.
pub open spec fn parse_usize_spec(s: Seq<char>) -> Option<usize> {
    let body = unsigned_body(s);
    if body.len() > 0 && all_digits(body) && digits_value(body) <= usize::MAX {
        Some(digits_value(body) as usize)
    } else {
        None
    }
}

/// The decimal writing of `n`, without leading zeros (zero is written `0`).
pub open spec fn decimal(n: nat) -> Seq<char>
    decreases n,
{
    if n < 10 {
        seq![digit_char(n)]
    } else {
        decimal(n / 10).push(digit_char(n % 10))
    }
}

// ---------------------------------------------------------------------------
// Trusted items
// ---------------------------------------------------------------------------

/// `String::push` of std: appends one character at the end of the string,
/// so the characters after the call are the old ones followed by `c`.
#[verifier::external_body]
pub(crate) fn push_char(s: &mut String, c: char)
    ensures
        final(s)@ == old(s)@.push(c),
{
    s.push(c);
}

// ---------------------------------------------------------------------------
// Executable functions
// ---------------------------------------------------------------------------

/// The characters of `s`, in order.
pub fn chars_of(s: &str) -> (v: Vec<char>)
    ensures
        v@ == s@,
{
    broadcast use vstd::string::group_string_axioms;
    let mut v: Vec<char> = Vec::new();
    for c in it: s.chars()
        invariant
            v@ == it.seq().take(it.index() as int),
    {
        v.push(c);
    }
    v
}

/// Appends the characters of `t` to `s`.
pub fn push_str(s: &mut String, t: &str)
    ensures
        final(s)@ == old(s)@ + t@,
{
    let v = chars_of(t);
    let mut i: usize = 0;
    while i < v.len()
        invariant
            i <= v.len(),
            v@ == t@,
            s@ == old(s)@ + v@.take(i as int),
        decreases v.len() - i,
    {
        push_char(s, v[i]);
        assert(v@.take(i as int + 1) == v@.take(i as int).push(v@[i as int]));
        i = i + 1;
    }
    assert(v@.take(v.len() as int) == v@);
}

/// A string holding exactly the characters of `v`.
pub fn string_of(v: &[char]) -> (s: String)
    ensures
        s@ == v@,
{
    let mut s = String::new();
    let mut i: usize = 0;
    while i < v.len()
        invariant
            i <= v.len(),
            s@ == v@.take(i as int),
        decreases v.len() - i,
    {
        push_char(&mut s, v[i]);
        assert(v@.take(i as int + 1) == v@.take(i as int).push(v@[i as int]));
        i = i + 1;
    }
    assert(v@.take(v.len() as int) == v@);
    s
}

/// The pieces of `s` between the occurrences of `sep`, as `str::split`
/// with a `char` pattern gives them.
pub fn split_chars(s: &[char], sep: char) -> (r: Vec<Vec<char>>)
    ensures
        r.len() == split_on(s@, sep).len(),
        forall|k: int| 0 <= k < r.len() ==> (#[trigger] r[k])@ == split_on(s@, sep)[k],
{
    let mut pieces: Vec<Vec<char>> = Vec::new();
    let mut cur: Vec<char> = Vec::new();
    let mut i: usize = 0;
    assert(s@.take(0) == Seq::<char>::empty());
    while i < s.len()
        invariant
            i <= s.len(),
            pieces.len() + 1 == split_on(s@.take(i as int), sep).len(),
            forall|k: int|
                0 <= k < pieces.len() ==> (#[trigger] pieces[k])@ == split_on(
                    s@.take(i as int),
                    sep,
                )[k],
            cur@ == split_on(s@.take(i as int), sep).last(),
        decreases s.len() - i,
    {
        let ghost before = s@.take(i as int);
        let c = s[i];
        assert(s@.take(i as int + 1).drop_last() == before);
        assert(s@.take(i as int + 1).last() == c);
        if c == sep {
            let mut done: Vec<char> = Vec::new();
            std::mem::swap(&mut done, &mut cur);
            pieces.push(done);
        } else {
            cur.push(c);
        }
        i = i + 1;
    }
    assert(s@.take(s.len() as int) == s@);
    pieces.push(cur);
    pieces
}

/// The characters of `s` other than `c`, in order.
pub fn without_char(s: &[char], c: char) -> (r: Vec<char>)
    ensures
        r@ == remove_char(s@, c),
{
    let mut r: Vec<char> = Vec::new();
    let mut i: usize = 0;
    while i < s.len()
        invariant
            i <= s.len(),
            r@ == remove_char(s@.take(i as int), c),
        decreases s.len() - i,
    {
        assert(s@.take(i as int + 1).drop_last() == s@.take(i as int));
        if s[i] != c {
            r.push(s[i]);
        }
        i = i + 1;
    }
    assert(s@.take(s.len() as int) == s@);
    r
}

/// Whether `a` and `b` hold the same characters.
pub fn same_chars(a: &[char], b: &[char]) -> (r: bool)
    ensures
        r == (a@ == b@),
{
    if a.len() != b.len() {
        return false;
    }
    let mut i: usize = 0;
    while i < a.len()
        invariant
            i <= a.len(),
            a.len() == b.len(),
            forall|k: int| 0 <= k < i ==> a@[k] == b@[k],
        decreases a.len() - i,
    {
        if a[i] != b[i] {
            return false;
        }
        i = i + 1;
    }
    assert(a@ == b@);
    true
}

/// The digit character for `d`, which is below ten.
fn digit_to_char(d: u64) -> (c: char)
    requires
        d < 10,
    ensures
        c == digit_char(d as nat),
        is_digit(c),
        digit_value(c) == d,
{
    ((d as u8) + 48u8) as char
}

/// Appends the decimal writing of `n` to `s`, as `n.to_string()` writes it.
pub fn push_decimal(s: &mut String, n: u64)
    ensures
        final(s)@ == old(s)@ + decimal(n as nat),
    decreases n,
{
    if n >= 10 {
        push_decimal(s, n / 10);
    }
    let c = digit_to_char(n % 10);
    push_char(s, c);
}

/// Reads an unsigned decimal number as `usize::from_str_radix(s, 10)` does:
/// `None` exactly where that call returns an error.
pub fn parse_usize(s: &[char]) -> (r: Option<usize>)
    ensures
        r == parse_usize_spec(s@),
{
    let mut start: usize = 0;
    if s.len() > 0 && s[0] == '+' {
        start = 1;
    }
    let ghost body = unsigned_body(s@);
    assert(body == s@.subrange(start as int, s.len() as int));
    if start >= s.len() {
        return None;
    }
    let mut val: usize = 0;
    let mut i: usize = start;
    assert(body.take(0) == Seq::<char>::empty());
    while i < s.len()
        invariant
            start <= i <= s.len(),
            start < s.len(),
            body == unsigned_body(s@),
            body == s@.subrange(start as int, s.len() as int),
            all_digits(body.take(i - start)),
            val == digits_value(body.take(i - start)),
        decreases s.len() - i,
    {
        let c = s[i];
        let ghost j: int = i - start;
        assert(body[j] == c);
        if !('0' <= c && c <= '9') {
            assert(!all_digits(body) || !is_digit(body[j]));
            return None;
        }
        let d: usize = ((c as u32) - 48u32) as usize;
        assert(body.take(j + 1).drop_last() == body.take(j));
        assert(body.take(j + 1).last() == c);
        assert(digits_value(body.take(j + 1)) == val * 10 + d);
        if val > (usize::MAX - d) / 10 {
            assert(val * 10 + d > usize::MAX) by (nonlinear_arith)
                requires
                    val > (usize::MAX - d) / 10,
                    d <= 9,
            ;
            proof {
                if all_digits(body) {
                    lemma_digits_value_prefix(body, j + 1);
                }
            }
            return None;
        }
        val = val * 10 + d;
        assert forall|k: int| 0 <= k < j + 1 implies is_digit(#[trigger] body.take(j + 1)[k]) by {
            if k < j {
                assert(body.take(j)[k] == body.take(j + 1)[k]);
            }
        }
        i = i + 1;
    }
    assert(body.take(s.len() - start) == body);
    Some(val)
}

// ---------------------------------------------------------------------------
// Lemmas
// ---------------------------------------------------------------------------

/// Splitting always gives at least one piece.
pub proof fn lemma_split_nonempty(s: Seq<char>, sep: char)
    ensures
        split_on(s, sep).len() >= 1,
    decreases s.len(),
{
    if s.len() > 0 {
        lemma_split_nonempty(s.drop_last(), sep);
    }
}

/// A text without the separator is a single piece.
pub proof fn lemma_split_free(s: Seq<char>, sep: char)
    requires
        !s.contains(sep),
    ensures
        split_on(s, sep) == seq![s],
    decreases s.len(),
{
    if s.len() > 0 {
        assert(!s.drop_last().contains(sep)) by {
            assert forall|i: int| 0 <= i < s.drop_last().len() implies s.drop_last()[i] != sep by {
                assert(s.drop_last()[i] == s[i]);
            }
        }
        lemma_split_free(s.drop_last(), sep);
        assert(s.last() != sep) by {
            assert(s[s.len() - 1] == s.last());
        }
        assert(s.drop_last().push(s.last()) == s);
        assert(split_on(s, sep) =~= seq![s]);
    } else {
        assert(s =~= Seq::<char>::empty());
    }
}

/// Splitting `p`, a separator and `q`, where `p` holds no separator, gives
/// `p` followed by the pieces of `q`.
pub proof fn lemma_split_after_first(p: Seq<char>, q: Seq<char>, sep: char)
    requires
        !p.contains(sep),
    ensures
        split_on(p + seq![sep] + q, sep) == seq![p] + split_on(q, sep),
    decreases q.len(),
{
    let s = p + seq![sep] + q;
    if q.len() == 0 {
        assert(s.drop_last() == p);
        assert(s.last() == sep);
        lemma_split_free(p, sep);
        assert(split_on(s, sep) =~= seq![p] + split_on(q, sep));
    } else {
        assert(s.drop_last() == p + seq![sep] + q.drop_last());
        assert(s.last() == q.last());
        lemma_split_after_first(p, q.drop_last(), sep);
        lemma_split_nonempty(q.drop_last(), sep);
        let x = split_on(q.drop_last(), sep);
        if q.last() == sep {
            assert(split_on(s, sep) =~= seq![p] + split_on(q, sep));
        } else {
            assert((seq![p] + x).last() == x.last());
            assert(split_on(s, sep) =~= seq![p] + split_on(q, sep));
        }
    }
}

/// The pieces of `p`, a separator and `q`, where neither holds the
/// separator, are `p` and `q`.
pub proof fn lemma_split_pair(p: Seq<char>, q: Seq<char>, sep: char)
    requires
        !p.contains(sep),
        !q.contains(sep),
    ensures
        split_on(p + seq![sep] + q, sep) == seq![p, q],
{
    lemma_split_after_first(p, q, sep);
    lemma_split_free(q, sep);
    assert(seq![p] + seq![q] =~= seq![p, q]);
}

/// Joining an updated last piece: appending a character to the last piece
/// appends it to the joined text.
proof fn lemma_join_push_last(p: Seq<Seq<char>>, sep: char, c: char)
    requires
        p.len() >= 1,
    ensures
        join_with(p.update(p.len() - 1, p.last().push(c)), sep) == join_with(p, sep).push(c),
{
    let q = p.update(p.len() - 1, p.last().push(c));
    if p.len() > 1 {
        assert(q.drop_last() == p.drop_last());
        assert(join_with(q, sep) == join_with(p.drop_last(), sep).push(sep) + p.last().push(c));
        assert(join_with(p.drop_last(), sep).push(sep) + p.last().push(c) == (join_with(
            p.drop_last(),
            sep,
        ).push(sep) + p.last()).push(c));
    }
}

/// Splitting a text at `sep` and joining the pieces with `sep` gives the
/// text back: no character is lost or added by the split.
pub proof fn lemma_split_join(s: Seq<char>, sep: char)
    ensures
        join_with(split_on(s, sep), sep) == s,
    decreases s.len(),
{
    if s.len() > 0 {
        let prev = split_on(s.drop_last(), sep);
        lemma_split_join(s.drop_last(), sep);
        lemma_split_nonempty(s.drop_last(), sep);
        if s.last() == sep {
            let q = prev.push(Seq::<char>::empty());
            assert(q.drop_last() == prev);
            assert(join_with(q, sep) == join_with(prev, sep).push(sep) + Seq::<char>::empty());
            assert(s == s.drop_last().push(s.last()));
        } else {
            lemma_join_push_last(prev, sep, s.last());
            assert(s == s.drop_last().push(s.last()));
        }
    }
}

/// No piece of a split holds the separator.
pub proof fn lemma_split_pieces_free(s: Seq<char>, sep: char)
    ensures
        forall|k: int|
            0 <= k < split_on(s, sep).len() ==> !(#[trigger] split_on(s, sep)[k]).contains(sep),
    decreases s.len(),
{
    if s.len() > 0 {
        lemma_split_pieces_free(s.drop_last(), sep);
        lemma_split_nonempty(s.drop_last(), sep);
        let prev = split_on(s.drop_last(), sep);
        if s.last() != sep {
            let x = prev.last().push(s.last());
            assert(!prev[prev.len() - 1].contains(sep));
            assert forall|i: int| 0 <= i < x.len() implies x[i] != sep by {
                if i < x.len() - 1 {
                    assert(x[i] == prev[prev.len() - 1][i]);
                }
            }
        } else {
            assert(!Seq::<char>::empty().contains(sep));
        }
    }
}

/// Taking every `c` out of a text leaves no `c` in it.
pub proof fn lemma_remove_char_free(s: Seq<char>, c: char)
    ensures
        !remove_char(s, c).contains(c),
    decreases s.len(),
{
    if s.len() > 0 {
        lemma_remove_char_free(s.drop_last(), c);
        let prev = remove_char(s.drop_last(), c);
        if s.last() != c {
            assert forall|i: int| 0 <= i < prev.push(s.last()).len() implies prev.push(
                s.last(),
            )[i] != c by {
                if i < prev.len() {
                    assert(prev.push(s.last())[i] == prev[i]);
                }
            }
        }
    }
}

/// Taking out a character that a text does not hold leaves the text as it
/// is.
pub proof fn lemma_remove_char_absent(s: Seq<char>, c: char)
    requires
        !s.contains(c),
    ensures
        remove_char(s, c) == s,
    decreases s.len(),
{
    if s.len() > 0 {
        assert(!s.drop_last().contains(c)) by {
            assert forall|i: int| 0 <= i < s.drop_last().len() implies s.drop_last()[i] != c by {
                assert(s.drop_last()[i] == s[i]);
            }
        }
        lemma_remove_char_absent(s.drop_last(), c);
        assert(s[s.len() - 1] == s.last());
        assert(s.drop_last().push(s.last()) == s);
    } else {
        assert(s =~= Seq::<char>::empty());
    }
}

/// The decimal writing of a number is a run of digits worth that number,
/// not starting with `+`.
proof fn lemma_decimal_digits(n: nat)
    ensures
        decimal(n).len() > 0,
        all_digits(decimal(n)),
        digits_value(decimal(n)) == n,
    decreases n,
{
    if n >= 10 {
        lemma_decimal_digits(n / 10);
        let d = decimal(n);
        assert(d.drop_last() == decimal(n / 10));
        assert(n == (n / 10) * 10 + n % 10) by (nonlinear_arith);
        assert(d.last() == digit_char(n % 10));
        assert(digit_value(digit_char(n % 10)) == n % 10);
        assert(digits_value(d) == digits_value(d.drop_last()) * 10 + digit_value(d.last()));
        assert forall|i: int| 0 <= i < d.len() implies is_digit(#[trigger] d[i]) by {
            if i < d.len() - 1 {
                assert(d[i] == decimal(n / 10)[i]);
            }
        }
    } else {
        let d = decimal(n);
        assert(d.drop_last() == Seq::<char>::empty());
        assert(digit_value(digit_char(n)) == n);
        assert(digits_value(d) == digits_value(d.drop_last()) * 10 + digit_value(d.last()));
    }
}

/// Writing a number in decimal and reading it back as
/// `usize::from_str_radix(.., 10)` does gives the number again.
pub proof fn lemma_decimal_parse_roundtrip(n: nat)
    requires
        n <= usize::MAX,
    ensures
        parse_usize_spec(decimal(n)) == Some(n as usize),
{
    lemma_decimal_digits(n);
    assert(is_digit(decimal(n)[0]));
    assert(unsigned_body(decimal(n)) == decimal(n));
}

/// A prefix of a run of digits is worth no more than the whole run.
pub proof fn lemma_digits_value_prefix(s: Seq<char>, k: int)
    requires
        0 <= k <= s.len(),
    ensures
        digits_value(s.take(k)) <= digits_value(s),
    decreases s.len(),
{
    if k < s.len() {
        assert(s.drop_last().take(k) == s.take(k));
        lemma_digits_value_prefix(s.drop_last(), k);
    } else {
        assert(s.take(k) == s);
    }
}

} // verus!
