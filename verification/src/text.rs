//! String helpers: equality and lexicographic order on character
//! sequences, decimal formatting of small integers, and greedy word wrap.

use vstd::prelude::*;

verus! {

/// Lexicographic order on character sequences by code point. Because
/// UTF-8 preserves code-point order, this agrees with Rust's byte-wise
/// string order.
pub open spec fn lex_le(a: Seq<char>, b: Seq<char>) -> bool
    decreases a.len(),
{
    if a.len() == 0 {
        true
    } else if b.len() == 0 {
        false
    } else if a[0] != b[0] {
        a[0] < b[0]
    } else {
        lex_le(a.drop_first(), b.drop_first())
    }
}

/// The order is total.
pub proof fn lemma_lex_le_total(a: Seq<char>, b: Seq<char>)
    ensures
        lex_le(a, b) || lex_le(b, a),
    decreases a.len(),
{
    if a.len() != 0 && b.len() != 0 && a[0] == b[0] {
        lemma_lex_le_total(a.drop_first(), b.drop_first());
    }
}

/// The order is reflexive.
pub proof fn lemma_lex_le_refl(a: Seq<char>)
    ensures
        lex_le(a, a),
    decreases a.len(),
{
    if a.len() > 0 {
        lemma_lex_le_refl(a.drop_first());
    }
}

/// The order is transitive.
pub proof fn lemma_lex_le_trans(a: Seq<char>, b: Seq<char>, c: Seq<char>)
    requires
        lex_le(a, b),
        lex_le(b, c),
    ensures
        lex_le(a, c),
    decreases a.len(),
{
    if a.len() != 0 && b.len() != 0 && c.len() != 0 {
        if a[0] == b[0] && b[0] == c[0] {
            lemma_lex_le_trans(a.drop_first(), b.drop_first(), c.drop_first());
        }
    }
}

/// Whether two strings hold the same characters.
pub fn str_eq(a: &str, b: &str) -> (r: bool)
    ensures
        r == (a@ == b@),
{
    let alen = a.unicode_len();
    let blen = b.unicode_len();
    if alen != blen {
        return false;
    }
    let mut i: usize = 0;
    while i < alen
        invariant
            0 <= i <= alen,
            alen == a@.len(),
            alen == b@.len(),
            forall|j: int| 0 <= j < i ==> a@[j] == b@[j],
        decreases alen - i,
    {
        if a.get_char(i) != b.get_char(i) {
            return false;
        }
        i += 1;
    }
    proof {
        assert(a@ =~= b@);
    }
    true
}

/// If the first `i` characters agree, the order of the whole strings is
/// the order of what follows them.
proof fn lemma_lex_le_common_prefix(a: Seq<char>, b: Seq<char>, i: int)
    requires
        0 <= i <= a.len(),
        i <= b.len(),
        forall|j: int| 0 <= j < i ==> a[j] == b[j],
    ensures
        lex_le(a, b) == lex_le(a.skip(i), b.skip(i)),
    decreases i,
{
    if i > 0 {
        assert(a.len() != 0 && b.len() != 0 && a[0] == b[0]);
        assert forall|j: int| 0 <= j < i - 1 implies a.drop_first()[j] == b.drop_first()[j] by {
            assert(a[j + 1] == b[j + 1]);
        }
        lemma_lex_le_common_prefix(a.drop_first(), b.drop_first(), i - 1);
        assert(a.drop_first().skip(i - 1) =~= a.skip(i));
        assert(b.drop_first().skip(i - 1) =~= b.skip(i));
    } else {
        assert(a.skip(0) =~= a);
        assert(b.skip(0) =~= b);
    }
}

/// Whether `a` comes at or before `b` in lexicographic order.
pub fn str_le(a: &str, b: &str) -> (r: bool)
    ensures
        r == lex_le(a@, b@),
{
    let alen = a.unicode_len();
    let blen = b.unicode_len();
    let n = if alen < blen {
        alen
    } else {
        blen
    };
    let mut i: usize = 0;
    while i < n
        invariant
            0 <= i <= n,
            alen == a@.len(),
            blen == b@.len(),
            n == if alen < blen {
                alen
            } else {
                blen
            },
            forall|j: int| 0 <= j < i ==> a@[j] == b@[j],
        decreases n - i,
    {
        let ca = a.get_char(i);
        let cb = b.get_char(i);
        if ca != cb {
            proof {
                lemma_lex_le_common_prefix(a@, b@, i as int);
            }
            return ca < cb;
        }
        i += 1;
    }
    proof {
        lemma_lex_le_common_prefix(a@, b@, n as int);
    }
    alen <= blen
}

/// The decimal digits of `n`, most significant first.
pub open spec fn dec_digits(n: int) -> Seq<char>
    decreases n,
{
    if n < 0 {
        Seq::empty()
    } else if n < 10 {
        seq![digit_char(n)]
    } else {
        dec_digits(n / 10).push(digit_char(n % 10))
    }
}

/// The character for one decimal digit.
pub open spec fn digit_char(d: int) -> char {
    if d == 0 {
        '0'
    } else if d == 1 {
        '1'
    } else if d == 2 {
        '2'
    } else if d == 3 {
        '3'
    } else if d == 4 {
        '4'
    } else if d == 5 {
        '5'
    } else if d == 6 {
        '6'
    } else if d == 7 {
        '7'
    } else if d == 8 {
        '8'
    } else {
        '9'
    }
}

/// One decimal digit as a string slice.
fn digit_str(d: u8) -> (r: &'static str)
    requires
        d < 10,
    ensures
        r@ =~= seq![digit_char(d as int)],
{
    proof {
        reveal_strlit("0");
        reveal_strlit("1");
        reveal_strlit("2");
        reveal_strlit("3");
        reveal_strlit("4");
        reveal_strlit("5");
        reveal_strlit("6");
        reveal_strlit("7");
        reveal_strlit("8");
        reveal_strlit("9");
    }
    match d {
        0 => "0",
        1 => "1",
        2 => "2",
        3 => "3",
        4 => "4",
        5 => "5",
        6 => "6",
        7 => "7",
        8 => "8",
        _ => "9",
    }
}

/// Append the decimal form of `n` to `out`.
pub fn push_decimal_u8(out: &mut String, n: u8)
    ensures
        final(out)@ == old(out)@ + dec_digits(n as int),
{
    if n >= 100 {
        out.append(digit_str(n / 100));
        out.append(digit_str((n / 10) % 10));
        out.append(digit_str(n % 10));
        proof {
            let m = n as int;
            assert(m / 10 / 10 == m / 100) by (nonlinear_arith)
                requires
                    m >= 100,
            ;
            assert(dec_digits(m) == dec_digits(m / 10).push(digit_char(m % 10)));
            assert(dec_digits(m / 10) == dec_digits(m / 10 / 10).push(digit_char(m / 10 % 10)));
            assert(m / 100 < 10);
            assert(dec_digits(m / 100) == seq![digit_char(m / 100)]);
            assert(dec_digits(m) =~= seq![
                digit_char(m / 100),
                digit_char((m / 10) % 10),
                digit_char(m % 10),
            ]);
            assert(final(out)@ =~= old(out)@ + dec_digits(m));
        }
    } else if n >= 10 {
        out.append(digit_str(n / 10));
        out.append(digit_str(n % 10));
        proof {
            let m = n as int;
            assert(dec_digits(m) == dec_digits(m / 10).push(digit_char(m % 10)));
            assert(m / 10 < 10);
            assert(dec_digits(m / 10) == seq![digit_char(m / 10)]);
            assert(dec_digits(m) =~= seq![digit_char(m / 10), digit_char(m % 10)]);
            assert(final(out)@ =~= old(out)@ + dec_digits(m));
        }
    } else {
        out.append(digit_str(n));
        proof {
            assert(final(out)@ =~= old(out)@ + dec_digits(n as int));
        }
    }
}

/// Whitespace for word wrapping: space, tab, and line breaks.
pub open spec fn is_space(c: char) -> bool {
    c == ' ' || c == '\t' || c == '\n' || c == '\r'
}

/// The longest non-space prefix of `s`.
pub open spec fn take_word(s: Seq<char>) -> Seq<char>
    decreases s.len(),
{
    if s.len() == 0 || is_space(s[0]) {
        Seq::empty()
    } else {
        seq![s[0]] + take_word(s.drop_first())
    }
}

/// The whitespace-separated words of `s`, in order.
pub open spec fn words(s: Seq<char>) -> Seq<Seq<char>>
    decreases s.len(),
    via words_decreases
{
    if s.len() == 0 {
        Seq::empty()
    } else if is_space(s[0]) {
        words(s.drop_first())
    } else {
        seq![take_word(s)] + words(s.skip(take_word(s).len() as int))
    }
}

proof fn lemma_take_word_len(s: Seq<char>)
    ensures
        take_word(s).len() <= s.len(),
    decreases s.len(),
{
    if s.len() != 0 && !is_space(s[0]) {
        lemma_take_word_len(s.drop_first());
    }
}

#[via_fn]
proof fn words_decreases(s: Seq<char>) {
    if s.len() != 0 && !is_space(s[0]) {
        assert(take_word(s) == seq![s[0]] + take_word(s.drop_first()));
        assert(take_word(s).len() >= 1);
        lemma_take_word_len(s);
    }
}

/// If the characters before `j` are non-spaces and `j` is the length or
/// a space, the first word is exactly the first `j` characters.
proof fn lemma_take_word_range(s: Seq<char>, j: int)
    requires
        0 <= j <= s.len(),
        forall|t: int| 0 <= t < j ==> !is_space(s[t]),
        j < s.len() ==> is_space(s[j]),
    ensures
        take_word(s) == s.take(j),
    decreases j,
{
    if j == 0 {
        assert(take_word(s) =~= s.take(0));
    } else {
        assert(!is_space(s[0]));
        assert forall|t: int| 0 <= t < j - 1 implies !is_space(s.drop_first()[t]) by {
            assert(!is_space(s[t + 1]));
        }
        if j - 1 < s.drop_first().len() {
            assert(s.drop_first()[j - 1] == s[j]);
        }
        lemma_take_word_range(s.drop_first(), j - 1);
        assert(take_word(s) =~= s.take(j));
    }
}

/// Skipping a leading space does not change the words.
proof fn lemma_words_space(s: Seq<char>, i: int)
    requires
        0 <= i < s.len(),
        is_space(s[i]),
    ensures
        words(s.skip(i)) == words(s.skip(i + 1)),
{
    assert(s.skip(i)[0] == s[i]);
    assert(s.skip(i).drop_first() =~= s.skip(i + 1));
}

/// A maximal run of non-spaces starting at `i` is the next word.
proof fn lemma_words_word(s: Seq<char>, i: int, j: int)
    requires
        0 <= i < j <= s.len(),
        forall|t: int| i <= t < j ==> !is_space(s[t]),
        j < s.len() ==> is_space(s[j]),
    ensures
        words(s.skip(i)) == seq![s.subrange(i, j)] + words(s.skip(j)),
{
    let tail = s.skip(i);
    assert forall|t: int| 0 <= t < j - i implies !is_space(tail[t]) by {
        assert(tail[t] == s[i + t]);
    }
    if j - i < tail.len() {
        assert(tail[j - i] == s[j]);
    }
    lemma_take_word_range(tail, j - i);
    assert(tail.take(j - i) =~= s.subrange(i, j));
    assert(tail.skip(j - i) =~= s.skip(j));
    assert(tail[0] == s[i]);
    assert(take_word(tail).len() == j - i);
}

/// The views of a list of strings.
pub open spec fn strs_view(v: Seq<String>) -> Seq<Seq<char>> {
    v.map_values(|w: String| w@)
}

fn is_space_char(c: char) -> (r: bool)
    ensures
        r == is_space(c),
{
    c == ' ' || c == '\t' || c == '\n' || c == '\r'
}

/// Split a text into its whitespace-separated words.
pub fn split_words(s: &str) -> (r: Vec<String>)
    ensures
        strs_view(r@) == words(s@),
{
    let n = s.unicode_len();
    let mut out: Vec<String> = Vec::new();
    let mut i: usize = 0;
    proof {
        assert(s@.skip(0) =~= s@);
    }
    while i < n
        invariant
            0 <= i <= n,
            n == s@.len(),
            words(s@) == strs_view(out@) + words(s@.skip(i as int)),
        decreases n - i,
    {
        let c = s.get_char(i);
        if is_space_char(c) {
            proof {
                lemma_words_space(s@, i as int);
            }
            i += 1;
        } else {
            let start = i;
            let mut j = i + 1;
            while j < n && !is_space_char(s.get_char(j))
                invariant
                    start < j <= n,
                    n == s@.len(),
                    forall|t: int| start <= t < j ==> !is_space(s@[t]),
                decreases n - j,
            {
                j += 1;
            }
            let ghost old_out = out@;
            let w = s.substring_char(start, j);
            out.push(String::from_str(w));
            proof {
                lemma_words_word(s@, start as int, j as int);
                assert(strs_view(out@) =~= strs_view(old_out).push(w@));
                assert(strs_view(out@) + words(s@.skip(j as int)) =~= strs_view(old_out) + (seq![
                    s@.subrange(start as int, j as int),
                ] + words(s@.skip(j as int))));
            }
            i = j;
        }
    }
    proof {
        assert(s@.skip(n as int) =~= Seq::<char>::empty());
        assert(words(s@) =~= strs_view(out@));
    }
    out
}

/// The lines of a greedy word wrap: `cur` is the line being filled, and
/// each next word joins it with a single space when the line stays
/// within the width, else starts a new line.
pub open spec fn wrap_lines(ws: Seq<Seq<char>>, width: int, cur: Seq<char>) -> Seq<Seq<char>>
    decreases ws.len(),
{
    if ws.len() == 0 {
        seq![cur]
    } else if cur.len() + 1 + ws[0].len() <= width {
        wrap_lines(ws.drop_first(), width, cur + seq![' '] + ws[0])
    } else {
        seq![cur] + wrap_lines(ws.drop_first(), width, ws[0])
    }
}

/// Greedy word wrap of a word list: no lines when there are no words.
pub open spec fn wrap_spec(ws: Seq<Seq<char>>, width: int) -> Seq<Seq<char>> {
    if ws.len() == 0 {
        Seq::empty()
    } else {
        wrap_lines(ws.drop_first(), width, ws[0])
    }
}

/// Wrap a text to multiple lines of at most `max_width` characters,
/// greedily, breaking only between words: the result is the greedy wrap
/// of the text's words. A single word longer than the width stands on a
/// line of its own.
pub fn wrap_text(text: &str, max_width: usize) -> (r: Vec<String>)
    ensures
        strs_view(r@) == wrap_spec(words(text@), max_width as int),
{
    let ws = split_words(text);
    let m = ws.len();
    if m == 0 {
        let empty_out: Vec<String> = Vec::new();
        proof {
            assert(strs_view(empty_out@) =~= wrap_spec(words(text@), max_width as int));
        }
        return empty_out;
    }
    let mut lines: Vec<String> = Vec::new();
    let mut cur: String = ws[0].clone();
    let mut i: usize = 1;
    proof {
        assert(strs_view(ws@).drop_first() =~= strs_view(ws@).skip(1));
        assert(strs_view(lines@) + wrap_lines(strs_view(ws@).skip(1), max_width as int, cur@)
            =~= wrap_lines(strs_view(ws@).skip(1), max_width as int, cur@));
    }
    while i < m
        invariant
            1 <= i <= m,
            m == ws@.len(),
            strs_view(ws@) == words(text@),
            wrap_spec(words(text@), max_width as int) == strs_view(lines@) + wrap_lines(
                strs_view(ws@).skip(i as int),
                max_width as int,
                cur@,
            ),
        decreases m - i,
    {
        let ghost rest = strs_view(ws@).skip(i as int);
        proof {
            assert(rest[0] == strs_view(ws@)[i as int]);
            assert(rest.drop_first() =~= strs_view(ws@).skip(i + 1 as int));
        }
        let clen = cur.unicode_len();
        let wlen = ws[i].unicode_len();
        let fits = match clen.checked_add(1) {
            Some(c1) => match c1.checked_add(wlen) {
                Some(total) => total <= max_width,
                None => false,
            },
            None => false,
        };
        if fits {
            let ghost cur0 = cur@;
            cur.append(" ");
            cur.append(ws[i].as_str());
            proof {
                reveal_strlit(" ");
                assert(" "@ =~= seq![' ']);
                assert(cur@ =~= cur0 + seq![' '] + rest[0]);
            }
        } else {
            let ghost old_lines = lines@;
            let ghost cur0 = cur@;
            let finished = cur;
            lines.push(finished);
            cur = ws[i].clone();
            proof {
                assert(strs_view(lines@) =~= strs_view(old_lines).push(cur0));
                assert(strs_view(lines@) + wrap_lines(
                    rest.drop_first(),
                    max_width as int,
                    rest[0],
                ) =~= strs_view(old_lines) + (seq![cur0] + wrap_lines(
                    rest.drop_first(),
                    max_width as int,
                    rest[0],
                )));
            }
        }
        i += 1;
    }
    let ghost old_lines = lines@;
    let ghost cur0 = cur@;
    lines.push(cur);
    proof {
        assert(strs_view(ws@).skip(m as int) =~= Seq::<Seq<char>>::empty());
        assert(strs_view(lines@) =~= strs_view(old_lines).push(cur0));
        assert(strs_view(lines@) =~= wrap_spec(words(text@), max_width as int));
    }
    lines
}

} // verus!
