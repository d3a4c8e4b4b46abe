//! What holds of the text primitives, in terms of the characters alone.
use crate::text;
use vstd::prelude::*;

verus! {

/// The characters that Unicode lists as white space.
pub open spec fn white(c: char) -> bool {
    ||| c == ' '
    ||| '\t' <= c <= '\r'
    ||| c == '\u{85}'
    ||| c == '\u{a0}'
    ||| c == '\u{1680}'
    ||| '\u{2000}' <= c <= '\u{200a}'
    ||| c == '\u{2028}'
    ||| c == '\u{2029}'
    ||| c == '\u{202f}'
    ||| c == '\u{205f}'
    ||| c == '\u{3000}'
}

/// Whether a text holds nothing but white space.
pub open spec fn all_white(s: Seq<char>) -> bool {
    forall|k: int| 0 <= k < s.len() ==> white(#[trigger] s[k])
}

/// Whether a text holds no white space at all.
pub open spec fn no_white(s: Seq<char>) -> bool {
    forall|k: int| 0 <= k < s.len() ==> !white(#[trigger] s[k])
}

/// Whether `value` is all of `s` but for white space round it, and has none at its ends.
pub open spec fn framed(s: Seq<char>, value: Seq<char>) -> bool {
    &&& exists|a: int, b: int|
        0 <= a <= b <= s.len() && #[trigger] s.subrange(a, b) == value && all_white(s.take(a))
            && all_white(s.skip(b))
    &&& value.len() > 0 ==> !white(value[0]) && !white(value.last())
}

/// Whether `value` is all of `s` but for white space at the end, and does not end in any.
pub open spec fn cut_at_end(s: Seq<char>, value: Seq<char>) -> bool {
    &&& value.len() <= s.len()
    &&& s.take(value.len() as int) == value
    &&& all_white(s.skip(value.len() as int))
    &&& value.len() > 0 ==> !white(value.last())
}

/// Exactly the characters that Unicode lists are taken for white space.
pub proof fn law_white_space(c: char)
    ensures
        text::is_space(c) <==> white(c),
{
}

proof fn lemma_start(s: Seq<char>, a: int)
    requires
        0 <= a <= s.len(),
        all_white(s.take(a)),
        a < s.len() ==> !white(s[a]),
    ensures
        text::trimmed_start(s) == s.skip(a),
    decreases a,
{
    if a > 0 {
        assert(white(s.take(a)[0]));
        law_white_space(s[0]);
        let rest = s.drop_first();
        assert forall|k: int| 0 <= k < a - 1 implies white(#[trigger] rest.take(a - 1)[k]) by {
            assert(s.take(a)[k + 1] == rest.take(a - 1)[k]);
        }
        lemma_start(rest, a - 1);
        assert(rest.skip(a - 1) =~= s.skip(a));
    } else {
        assert(s.skip(0) =~= s);
        if s.len() > 0 {
            law_white_space(s[0]);
        }
    }
}

proof fn lemma_end(s: Seq<char>, b: int)
    requires
        0 <= b <= s.len(),
        all_white(s.skip(b)),
        b > 0 ==> !white(s[b - 1]),
    ensures
        text::trimmed_end(s) == s.take(b),
    decreases s.len(),
{
    if b < s.len() {
        assert(white(s.skip(b)[s.len() - 1 - b]));
        law_white_space(s.last());
        let rest = s.drop_last();
        assert forall|k: int| 0 <= k < rest.len() - b implies white(#[trigger] rest.skip(b)[k]) by {
            assert(s.skip(b)[k] == rest.skip(b)[k]);
        }
        lemma_end(rest, b);
        assert(rest.take(b) =~= s.take(b));
    } else {
        assert(s.take(b) =~= s);
        if s.len() > 0 {
            law_white_space(s.last());
        }
    }
}

/// The first place that is not white.
proof fn lemma_first_dark(s: Seq<char>) -> (a: int)
    ensures
        0 <= a <= s.len(),
        all_white(s.take(a)),
        a < s.len() ==> !white(s[a]),
    decreases s.len(),
{
    if s.len() > 0 && white(s[0]) {
        let rest = s.drop_first();
        let a = lemma_first_dark(rest);
        assert forall|k: int| 0 <= k < a + 1 implies white(#[trigger] s.take(a + 1)[k]) by {
            if k > 0 {
                assert(rest.take(a)[k - 1] == s.take(a + 1)[k]);
            }
        }
        a + 1
    } else {
        0
    }
}

/// The place behind the last one that is not white.
proof fn lemma_last_dark(s: Seq<char>) -> (b: int)
    ensures
        0 <= b <= s.len(),
        all_white(s.skip(b)),
        b > 0 ==> !white(s[b - 1]),
    decreases s.len(),
{
    if s.len() > 0 && white(s.last()) {
        let rest = s.drop_last();
        let b = lemma_last_dark(rest);
        assert forall|k: int| 0 <= k < s.len() - b implies white(#[trigger] s.skip(b)[k]) by {
            if k < rest.len() - b {
                assert(rest.skip(b)[k] == s.skip(b)[k]);
            }
        }
        b
    } else {
        s.len() as int
    }
}

/// Trimming takes the white space at the end away, and nothing else: `trimmed_end(s)` is the one
/// text that `s` begins with, that does not end in white space, and that is followed by white
/// space alone.
pub proof fn law_trim_end(s: Seq<char>, value: Seq<char>)
    ensures
        text::trimmed_end(s) == value <==> cut_at_end(s, value),
{
    let b = lemma_last_dark(s);
    lemma_end(s, b);
    if cut_at_end(s, value) {
        assert(value.len() > 0 ==> value.last() == s[value.len() - 1]);
        lemma_end(s, value.len() as int);
    }
}

/// Trimming takes the white space round a text away, and nothing else: `trimmed(s)` is the one
/// part of `s` that has no white space at its ends and only white space round it.
pub proof fn law_trim(s: Seq<char>, value: Seq<char>)
    ensures
        text::trimmed(s) == value <==> framed(s, value),
{
    let a = lemma_first_dark(s);
    lemma_start(s, a);
    let t = s.skip(a);
    let b = lemma_last_dark(t);
    lemma_end(t, b);
    assert(s.subrange(a, a + b) =~= t.take(b));
    assert(s.skip(a + b) =~= t.skip(b));
    if b > 0 {
        assert(t[0] == s[a]);
    }
    assert(framed(s, t.take(b)));
    if framed(s, value) {
        let (c, d) = choose|c: int, d: int|
            0 <= c <= d <= s.len() && #[trigger] s.subrange(c, d) == value && all_white(s.take(c))
                && all_white(s.skip(d));
        if value.len() > 0 {
            assert(value[0] == s[c] && value.last() == s[d - 1]);
            lemma_start(s, c);
            let u = s.skip(c);
            assert(u.skip(d - c) =~= s.skip(d));
            assert(u[d - c - 1] == s[d - 1]);
            lemma_end(u, d - c);
            assert(u.take(d - c) =~= value);
        } else {
            assert forall|k: int| 0 <= k < s.len() implies white(#[trigger] s[k]) by {
                if k < c {
                    assert(s.take(c)[k] == s[k]);
                } else {
                    assert(s.skip(d)[k - d] == s[k]);
                }
            }
            assert(a == s.len());
            assert(t.take(b) =~= value);
        }
    }
}

/// A text is blank if and only if every character in it is white space.
pub proof fn law_blank(s: Seq<char>)
    ensures
        text::is_blank(s) <==> all_white(s),
{
    law_trim(s, text::trimmed(s));
    law_trim(s, Seq::empty());
    if all_white(s) {
        assert(s.subrange(0, 0) =~= Seq::empty());
        assert(s.skip(0) =~= s);
        assert(framed(s, Seq::empty()));
    }
    if text::is_blank(s) {
        assert(text::trimmed(s) =~= Seq::empty());
        let (c, d) = choose|c: int, d: int|
            0 <= c <= d <= s.len() && #[trigger] s.subrange(c, d) == Seq::<char>::empty()
                && all_white(s.take(c)) && all_white(s.skip(d));
        assert(s.subrange(c, d).len() == 0);
        assert forall|k: int| 0 <= k < s.len() implies white(#[trigger] s[k]) by {
            if k < c {
                assert(s.take(c)[k] == s[k]);
            } else {
                assert(s.skip(d)[k - d] == s[k]);
            }
        }
    }
}

/// Whether a text stands on one line.
pub open spec fn one_line(s: Seq<char>) -> bool {
    forall|k: int| 0 <= k < s.len() ==> #[trigger] s[k] != '\n'
}

/// A line without the carriage return that belongs to its end.
pub open spec fn without_return(line: Seq<char>) -> Seq<char> {
    if line.len() > 0 && line.last() == '\r' {
        line.drop_last()
    } else {
        line
    }
}

/// A text of one line has that line, and none where it is empty. A line that is followed by a line
/// feed and by more text is the first one, without its carriage return, and the other lines are
/// those of the rest.
pub proof fn law_lines(line: Seq<char>, rest: Seq<char>)
    requires
        one_line(line),
    ensures
        text::lines_of(Seq::<char>::empty()) == Seq::<Seq<char>>::empty(),
        line.len() > 0 ==> text::lines_of(line) == seq![line],
        text::lines_of(line + seq!['\n'] + rest) == seq![without_return(line)] + text::lines_of(
            rest,
        ),
{
    text::lemma_run_before(line, '\n', line.len());
    assert(line.take(line.len() as int) =~= line);
    let all = line + seq!['\n'] + rest;
    let n = line.len() as int;
    assert forall|k: int| 0 <= k < n implies all[k] != '\n' by {
        assert(all[k] == line[k]);
    }
    assert(all[n] == '\n');
    text::lemma_run_before(all, '\n', n as nat);
    assert(all.skip(n + 1) =~= rest);
    assert(n > 0 ==> all[n - 1] == line.last());
    assert(all.take(n) =~= line);
    if n > 0 {
        assert(all.take(n - 1) =~= line.drop_last());
    }
    assert(text::first_line(all) == without_return(line));
}

/// Of the lines of a text those are kept that hold more than white space, in order, each without
/// the white space round it.
pub proof fn law_filled_lines(line: Seq<char>, rest: Seq<char>)
    requires
        one_line(line),
    ensures
        text::trimmed_lines(Seq::<char>::empty()) == Seq::<Seq<char>>::empty(),
        all_white(line) ==> text::trimmed_lines(line) == Seq::<Seq<char>>::empty(),
        !all_white(line) ==> text::trimmed_lines(line) == seq![text::trimmed(line)],
        all_white(line) ==> text::trimmed_lines(line + seq!['\n'] + rest) == text::trimmed_lines(
            rest,
        ),
        !all_white(line) ==> text::trimmed_lines(line + seq!['\n'] + rest) == seq![
            text::trimmed(line),
        ] + text::trimmed_lines(rest),
{
    let keep = |l: Seq<char>| !text::is_blank(l);
    let strip = |l: Seq<char>| text::trimmed(l);
    law_lines(line, rest);
    let first = without_return(line);
    lemma_without_return(line);
    lemma_keep_one(line);
    lemma_keep_one(first);
    let none = Seq::<Seq<char>>::empty();
    lemma_keep_none();
    assert(none.map_values(strip) =~= none);
    assert(seq![line].map_values(strip) =~= seq![text::trimmed(line)]);
    if line.len() == 0 {
        assert(line =~= Seq::<char>::empty());
    }
    Seq::filter_distributes_over_add(seq![first], text::lines_of(rest), keep);
    let all = line + seq!['\n'] + rest;
    let kept = text::filled_lines(rest);
    if all_white(line) {
        assert(text::filled_lines(all) =~= kept);
    } else {
        assert(text::filled_lines(all) =~= seq![first] + kept);
        assert((seq![first] + kept).map_values(strip) =~= seq![text::trimmed(first)]
            + kept.map_values(strip));
    }
}

proof fn lemma_keep_none()
    ensures
        Seq::<Seq<char>>::empty().filter(|l: Seq<char>| !text::is_blank(l)) == Seq::<
            Seq<char>,
        >::empty(),
{
    reveal(Seq::filter);
    assert(Seq::<Seq<char>>::empty().filter(|l: Seq<char>| !text::is_blank(l)) =~= Seq::<
        Seq<char>,
    >::empty());
}

proof fn lemma_keep_one(line: Seq<char>)
    ensures
        seq![line].filter(|l: Seq<char>| !text::is_blank(l)) == if all_white(line) {
            Seq::<Seq<char>>::empty()
        } else {
            seq![line]
        },
{
    let keep = |l: Seq<char>| !text::is_blank(l);
    law_blank(line);
    lemma_keep_none();
    assert(seq![line].drop_last() =~= Seq::<Seq<char>>::empty());
    assert(seq![line].filter(keep) =~= if all_white(line) {
        Seq::<Seq<char>>::empty()
    } else {
        seq![line]
    }) by {
        reveal(Seq::filter);
        assert(seq![line].drop_last().filter(keep) == Seq::<Seq<char>>::empty());
    }
}

proof fn lemma_without_return(line: Seq<char>)
    ensures
        all_white(line) <==> all_white(without_return(line)),
        text::trimmed(line) == text::trimmed(without_return(line)),
{
    let first = without_return(line);
    if line.len() > 0 && line.last() == '\r' {
        if all_white(line) {
            assert forall|k: int| 0 <= k < first.len() implies white(#[trigger] first[k]) by {
                assert(line[k] == first[k]);
            }
        }
        if all_white(first) {
            assert forall|k: int| 0 <= k < line.len() implies white(#[trigger] line[k]) by {
                if k < first.len() {
                    assert(first[k] == line[k]);
                }
            }
        }
        let value = text::trimmed(first);
        law_trim(first, value);
        let (c, d) = choose|c: int, d: int|
            0 <= c <= d <= first.len() && #[trigger] first.subrange(c, d) == value && all_white(
                first.take(c),
            ) && all_white(first.skip(d));
        assert(line.subrange(c, d) =~= first.subrange(c, d));
        assert(line.take(c) =~= first.take(c));
        assert forall|k: int| 0 <= k < line.len() - d implies white(#[trigger] line.skip(d)[k]) by {
            if k < first.len() - d {
                assert(first.skip(d)[k] == line.skip(d)[k]);
            }
        }
        assert(framed(line, value));
        law_trim(line, value);
    }
}

/// The number of lines with more than white space grows by exactly one for each such line.
pub proof fn law_lines_are_counted(line: Seq<char>, rest: Seq<char>)
    requires
        one_line(line),
    ensures
        text::filled_lines(Seq::<char>::empty()).len() == 0,
        text::filled_lines(line).len() == if all_white(line) {
            0int
        } else {
            1
        },
        text::filled_lines(line + seq!['\n'] + rest).len() == text::filled_lines(rest).len()
            + if all_white(line) {
            0int
        } else {
            1
        },
{
    law_filled_lines(line, rest);
    assert(text::trimmed_lines(Seq::<char>::empty()).len() == 0);
    assert(text::trimmed_lines(line).len() == text::filled_lines(line).len());
    let all = line + seq!['\n'] + rest;
    assert(text::trimmed_lines(all).len() == text::filled_lines(all).len());
    assert(text::trimmed_lines(rest).len() == text::filled_lines(rest).len());
}

/// A text has at least one line with more than white space if and only if it holds a character
/// that is not white space; and it has no more such lines than characters.
pub proof fn law_filled_lines_of_any_text(s: Seq<char>)
    ensures
        text::filled_lines(s).len() == 0 <==> all_white(s),
        text::filled_lines(s).len() <= s.len(),
    decreases s.len(),
{
    if exists|n: int| 0 <= n < s.len() && s[n] == '\n' {
        let n = lemma_first_feed(s);
        let line = s.take(n);
        let rest = s.skip(n + 1);
        assert(s =~= line + seq!['\n'] + rest);
        assert forall|k: int| 0 <= k < line.len() implies #[trigger] line[k] != '\n' by {
            assert(line[k] == s[k]);
        }
        law_lines_are_counted(line, rest);
        law_filled_lines_of_any_text(rest);
        if all_white(s) {
            assert forall|k: int| 0 <= k < line.len() implies white(#[trigger] line[k]) by {
                assert(s[k] == line[k]);
            }
            assert forall|k: int| 0 <= k < rest.len() implies white(#[trigger] rest[k]) by {
                assert(s[n + 1 + k] == rest[k]);
            }
        }
        if all_white(line) && all_white(rest) {
            assert forall|k: int| 0 <= k < s.len() implies white(#[trigger] s[k]) by {
                if k < n {
                    assert(line[k] == s[k]);
                } else if k > n {
                    assert(rest[k - n - 1] == s[k]);
                }
            }
        }
    } else {
        assert forall|k: int| 0 <= k < s.len() implies #[trigger] s[k] != '\n' by {}
        law_lines_are_counted(s, Seq::empty());
    }
}

proof fn lemma_first_feed(s: Seq<char>) -> (n: int)
    requires
        exists|n: int| 0 <= n < s.len() && s[n] == '\n',
    ensures
        0 <= n < s.len(),
        s[n] == '\n',
        forall|k: int| 0 <= k < n ==> s[k] != '\n',
    decreases s.len(),
{
    if s[0] == '\n' {
        0
    } else {
        let rest = s.drop_first();
        let m = choose|m: int| 0 <= m < s.len() && s[m] == '\n';
        assert(rest[m - 1] == '\n');
        let n = lemma_first_feed(rest);
        assert forall|k: int| 0 <= k < n + 1 implies s[k] != '\n' by {
            if k > 0 {
                assert(rest[k - 1] == s[k]);
            }
        }
        n + 1
    }
}

/// White space before a text adds no word to it. A stretch without white space, up to the end or
/// to the next white space, is the first word, and the other words are those of the rest.
pub proof fn law_words(space: Seq<char>, word: Seq<char>, rest: Seq<char>)
    requires
        all_white(space),
        word.len() > 0,
        no_white(word),
        rest.len() > 0 ==> white(rest[0]),
    ensures
        text::words_of(space) == Seq::<Seq<char>>::empty(),
        text::words_of(space + word + rest) == seq![word] + text::words_of(rest),
{
    let a = space.len() as int;
    assert(space.take(a) =~= space);
    lemma_start(space, a);
    let all = space + word + rest;
    assert(all.take(a) =~= space);
    assert(all[a] == word[0]);
    lemma_start(all, a);
    let t = all.skip(a);
    assert(t =~= word + rest);
    let n = word.len();
    assert forall|k: int| 0 <= k < n implies !text::is_space(t[k]) by {
        assert(t[k] == word[k]);
        law_white_space(word[k]);
    }
    assert(n < t.len() ==> t[n as int] == rest[0]);
    if n < t.len() {
        law_white_space(rest[0]);
    }
    text::lemma_word_len(t, n);
    assert(t.take(n as int) =~= word);
    assert(t.skip(n as int) =~= rest);
}

/// Whether a character occurs in a text.
pub open spec fn occurs(c: char, s: Seq<char>) -> bool {
    exists|k: int| 0 <= k < s.len() && s[k] == c
}

/// What follows the last `c` holds no `c`, and is all of the text where there is none in it.
pub proof fn law_after_last(before: Seq<char>, c: char, last: Seq<char>)
    requires
        !occurs(c, last),
    ensures
        text::after_last(last, c) == last,
        text::after_last(before + seq![c] + last, c) == last,
    decreases last.len(),
{
    let all = before + seq![c] + last;
    if last.len() > 0 {
        let shorter = last.drop_last();
        assert forall|k: int| 0 <= k < shorter.len() implies shorter[k] != c by {
            assert(last[k] == shorter[k]);
        }
        assert(!occurs(c, shorter));
        assert(last[last.len() - 1] != c);
        law_after_last(before, c, shorter);
        assert(all.drop_last() =~= before + seq![c] + shorter);
        assert(shorter.push(last.last()) =~= last);
    } else {
        assert(all.last() == c);
        assert(last =~= Seq::empty());
    }
}

/// The value of a digit, up to that of `f`.
pub open spec fn digit_value(c: char) -> int {
    if '0' <= c <= '9' {
        c as int - '0' as int
    } else {
        10 + (c as int - 'a' as int)
    }
}

/// The number that a row of digits stands for in the given base, from its last digit on.
pub open spec fn number_of(s: Seq<char>, base: int) -> int
    decreases s.len(),
{
    if s.len() == 0 {
        0
    } else {
        number_of(s.drop_last(), base) * base + digit_value(s.last())
    }
}

/// Whether a text holds digits of the given base alone, at least one, and does not begin with a
/// zero unless it is `0`.
pub open spec fn proper_digits(s: Seq<char>, base: int) -> bool {
    &&& s.len() > 0
    &&& s.len() > 1 ==> s[0] != '0'
    &&& forall|k: int|
        0 <= k < s.len() ==> ('0' <= #[trigger] s[k] <= '9' || 'a' <= s[k] <= 'f')
            && digit_value(s[k]) < base
}

/// A number is written with the digits of its base, in lower case, without leading zeros, and it
/// is the number that the digits stand for.
pub proof fn law_numerals(n: nat, base: nat)
    requires
        2 <= base <= 16,
    ensures
        proper_digits(text::numeral(n, base), base as int),
        number_of(text::numeral(n, base), base as int) == n,
    decreases n,
{
    let s = text::numeral(n, base);
    if n < base {
        lemma_digit(n as int);
        assert(s.drop_last() =~= Seq::empty());
        assert(number_of(s.drop_last(), base as int) == 0);
        assert(0 * base == 0);
    } else {
        assert(n / base < n) by (nonlinear_arith)
            requires
                base >= 2,
                n >= base,
        ;
        assert(n / base >= 1) by (nonlinear_arith)
            requires
                base >= 2,
                n >= base,
        ;
        assert((n / base) * base + n % base == n) by (nonlinear_arith)
            requires
                base >= 2,
        ;
        assert(n % base < base) by (nonlinear_arith)
            requires
                base >= 2,
        ;
        law_numerals(n / base, base);
        let head = text::numeral(n / base, base);
        lemma_digit((n % base) as int);
        assert(s.drop_last() =~= head);
        if head.len() == 1 {
            assert(head.drop_last() =~= Seq::empty());
            assert(number_of(head.drop_last(), base as int) == 0);
            assert(0 * base == 0);
            assert(head[0] != '0');
        }
        assert forall|k: int| 0 <= k < s.len() implies ('0' <= #[trigger] s[k] <= '9' || 'a' <= s[k]
            <= 'f') && digit_value(s[k]) < base by {
            if k < head.len() {
                assert(s[k] == head[k]);
            }
        }
    }
}

proof fn lemma_digit(d: int)
    requires
        0 <= d < 16,
    ensures
        digit_value(text::digit_char(d)) == d,
        '0' <= text::digit_char(d) <= '9' || 'a' <= text::digit_char(d) <= 'f',
{
    let digits = seq![
        '0',
        '1',
        '2',
        '3',
        '4',
        '5',
        '6',
        '7',
        '8',
        '9',
        'a',
        'b',
        'c',
        'd',
        'e',
        'f',
    ];
    assert(digits[d] == text::digit_char(d));
}

/// Different numbers are written differently.
pub proof fn law_numerals_differ(a: nat, b: nat, base: nat)
    requires
        2 <= base <= 16,
        a != b,
    ensures
        text::numeral(a, base) != text::numeral(b, base),
{
    law_numerals(a, base);
    law_numerals(b, base);
}

/// Whether a text holds decimal digits alone, at least one.
pub open spec fn decimal_digits(s: Seq<char>) -> bool {
    s.len() > 0 && forall|k: int| 0 <= k < s.len() ==> '0' <= #[trigger] s[k] <= '9'
}

/// A row of decimal digits is read as the number that they stand for, with or without a plus sign
/// before them; nothing else is read as a number.
pub proof fn law_counts_are_read(s: Seq<char>)
    ensures
        decimal_digits(s) ==> text::parsed(s) == Some(number_of(s, 10) as nat) && text::parsed(
            seq!['+'] + s,
        ) == Some(number_of(s, 10) as nat) && number_of(s, 10) >= 0,
        text::parsed(s) is Some ==> decimal_digits(s) || s.len() > 1 && s[0] == '+'
            && decimal_digits(s.skip(1)),
{
    if decimal_digits(s) {
        lemma_value(s);
        assert(text::all_digits(s));
        let signed = seq!['+'] + s;
        assert(signed.skip(1) =~= s);
        assert(s[0] != '+');
    }
    if text::parsed(s) is Some {
        if s.len() > 0 && s[0] == '+' {
            let body = s.skip(1);
            assert(forall|k: int| 0 <= k < body.len() ==> text::is_digit(#[trigger] body[k]));
        } else {
            assert(forall|k: int| 0 <= k < s.len() ==> text::is_digit(#[trigger] s[k]));
        }
    }
}

proof fn lemma_value(s: Seq<char>)
    requires
        forall|k: int| 0 <= k < s.len() ==> '0' <= #[trigger] s[k] <= '9',
    ensures
        text::value_of(s) == number_of(s, 10),
    decreases s.len(),
{
    if s.len() > 0 {
        assert forall|k: int| 0 <= k < s.len() - 1 implies '0' <= #[trigger] s.drop_last()[k]
            <= '9' by {
            assert(s[k] == s.drop_last()[k]);
        }
        lemma_value(s.drop_last());
        assert('0' <= s[s.len() - 1] <= '9');
    }
}

/// A count is written in decimal digits without leading zeros, and what was written is read as
/// that count.
pub proof fn law_counts_read_back(n: nat)
    ensures
        proper_digits(text::decimal(n as int), 10),
        number_of(text::decimal(n as int), 10) == n,
        text::parsed(text::decimal(n as int)) == Some(n),
        no_white(text::decimal(n as int)),
{
    law_numerals(n, 10);
    let s = text::decimal(n as int);
    assert forall|k: int| 0 <= k < s.len() implies '0' <= #[trigger] s[k] <= '9' by {
        assert(digit_value(s[k]) < 10);
    }
    law_counts_are_read(s);
}

/// Texts are in the order of their code points: what comes first after a common beginning decides,
/// and a text stands before those that continue it. Of two different texts exactly one stands
/// before the other.
pub proof fn law_order(start: Seq<char>, x: char, a: Seq<char>, y: char, b: Seq<char>)
    ensures
        x < y ==> text::precedes(start + seq![x] + a, start + seq![y] + b),
        x > y ==> !text::precedes(start + seq![x] + a, start + seq![y] + b),
        text::precedes(start, start + seq![x] + a),
        !text::precedes(start + seq![x] + a, start),
        !text::precedes(start, start),
    decreases start.len(),
{
    let p = start + seq![x] + a;
    let q = start + seq![y] + b;
    if start.len() > 0 {
        let rest = start.drop_first();
        assert(p.drop_first() =~= rest + seq![x] + a);
        assert(q.drop_first() =~= rest + seq![y] + b);
        assert(p[0] == start[0] && q[0] == start[0]);
        law_order(rest, x, a, y, b);
    } else {
        assert(p[0] == x && q[0] == y);
    }
}

/// How a text begins and ends, and what becomes of it when its end is replaced.
pub proof fn law_ends(a: Seq<char>, b: Seq<char>, new: Seq<char>)
    ensures
        text::begins(a + b, a),
        text::ends(a + b, b),
        text::with_end(a + b, b, new) == a + new,
        text::begins(a, b) ==> a == b + a.skip(b.len() as int),
        text::ends(a, b) ==> a == a.take(a.len() - b.len()) + b,
{
    let s = a + b;
    assert(s.take(a.len() as int) =~= a);
    assert(s.skip(a.len() as int) =~= b);
    if text::begins(a, b) {
        assert(a =~= b + a.skip(b.len() as int));
    }
    if text::ends(a, b) {
        assert(a =~= a.take(a.len() - b.len()) + b);
    }
}

/// What stands in the place of a missing text, or of an empty one; and how a flag is written.
pub proof fn law_defaults(text: Seq<char>, default: Seq<char>)
    ensures
        text::text_or(Some(text), default) == text,
        text::text_or(None, default) == default,
        text.len() > 0 ==> text::filled_or(Some(text), default) == text,
        text::filled_or(Some(Seq::empty()), default) == default,
        text::filled_or(None, default) == default,
        text::flag_text(true) == "true"@,
        text::flag_text(false) == "false"@,
{
}

} // verus!
