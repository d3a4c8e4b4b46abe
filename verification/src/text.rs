//! Text primitives: what the engine reads out of, and writes into, plain text.
use vstd::prelude::*;

verus! {

/// The views of a list of strings.
pub open spec fn views(list: Seq<String>) -> Seq<Seq<char>> {
    list.map_values(|s: String| s@)
}

/// A text that may be missing, or `default` in its place.
pub open spec fn text_or(value: Option<Seq<char>>, default: Seq<char>) -> Seq<char> {
    match value {
        Some(text) => text,
        None => default,
    }
}

/// A text that may be missing or empty, or `default` in its place.
pub open spec fn filled_or(value: Option<Seq<char>>, default: Seq<char>) -> Seq<char> {
    match value {
        Some(text) => if text.len() > 0 {
            text
        } else {
            default
        },
        None => default,
    }
}

/// A text that may be missing, or `default` in its place.
pub fn or_text<'a>(value: &'a Option<String>, default: &'a str) -> (r: &'a str)
    ensures
        r@ == text_or(value.deep_view(), default@),
{
    match value {
        Some(text) => text.as_str(),
        None => default,
    }
}

/// A text that may be missing or empty, or `default` in its place.
pub fn or_if_empty<'a>(value: &'a Option<String>, default: &'a str) -> (r: &'a str)
    ensures
        r@ == filled_or(value.deep_view(), default@),
{
    match value {
        Some(text) => if text.as_str().is_empty() {
            default
        } else {
            text.as_str()
        },
        None => default,
    }
}

/// A flag as it is printed.
pub open spec fn flag_text(b: bool) -> Seq<char> {
    if b {
        "true"@
    } else {
        "false"@
    }
}

/// A flag as it is printed.
pub fn flag(b: bool) -> (r: &'static str)
    ensures
        r@ == flag_text(b),
{
    if b {
        "true"
    } else {
        "false"
    }
}

/// The characters of `s`, in order.
pub fn chars_of(s: &str) -> (list: Vec<char>)
    ensures
        list@ == s@,
{
    let mut list: Vec<char> = Vec::new();
    for c in it: s.chars()
        invariant
            list@ == it.seq().take(it.index() as int),
            it.seq() == s@,
    {
        list.push(c);
    }
    list
}

/// Characters with the Unicode property `White_Space`.
pub open spec fn is_space(c: char) -> bool {
    let n = c as u32;
    ||| 0x09 <= n <= 0x0d
    ||| n == 0x20
    ||| n == 0x85
    ||| n == 0xa0
    ||| n == 0x1680
    ||| 0x2000 <= n <= 0x200a
    ||| n == 0x2028
    ||| n == 0x2029
    ||| n == 0x202f
    ||| n == 0x205f
    ||| n == 0x3000
}

fn space(c: char) -> (r: bool)
    ensures
        r == is_space(c),
{
    let n: u32 = c as u32;
    (0x09 <= n && n <= 0x0d) || n == 0x20 || n == 0x85 || n == 0xa0 || n == 0x1680 || (0x2000 <= n
        && n <= 0x200a) || n == 0x2028 || n == 0x2029 || n == 0x202f || n == 0x205f || n == 0x3000
}

/// `s` without its leading white space.
pub open spec fn trimmed_start(s: Seq<char>) -> Seq<char>
    decreases s.len(),
{
    if s.len() > 0 && is_space(s[0]) {
        trimmed_start(s.drop_first())
    } else {
        s
    }
}

/// `s` without its trailing white space.
pub open spec fn trimmed_end(s: Seq<char>) -> Seq<char>
    decreases s.len(),
{
    if s.len() > 0 && is_space(s.last()) {
        trimmed_end(s.drop_last())
    } else {
        s
    }
}

/// `s` without leading and trailing white space.
pub open spec fn trimmed(s: Seq<char>) -> Seq<char> {
    trimmed_end(trimmed_start(s))
}

/// The index behind the last character of `list[from..]` that is not white space.
fn end_of_text(list: &Vec<char>, from: usize) -> (end: usize)
    requires
        from <= list.len(),
    ensures
        from <= end <= list.len(),
        list@.subrange(from as int, end as int) == trimmed_end(list@.skip(from as int)),
{
    let mut end: usize = list.len();
    proof {
        assert(list@.subrange(from as int, end as int) =~= list@.skip(from as int));
    }
    while from < end && space(list[end - 1])
        invariant
            from <= end <= list.len(),
            trimmed_end(list@.subrange(from as int, end as int)) == trimmed_end(
                list@.skip(from as int),
            ),
        decreases end,
    {
        proof {
            assert(list@.subrange(from as int, end as int).drop_last() =~= list@.subrange(
                from as int,
                end - 1,
            ));
        }
        end = end - 1;
    }
    end
}

/// The index of the first character of `list[from..]` that is not white space.
fn start_of_text(list: &Vec<char>, from: usize) -> (start: usize)
    requires
        from <= list.len(),
    ensures
        from <= start <= list.len(),
        list@.skip(start as int) == trimmed_start(list@.skip(from as int)),
{
    let mut start: usize = from;
    while start < list.len() && space(list[start])
        invariant
            from <= start <= list.len(),
            trimmed_start(list@.skip(start as int)) == trimmed_start(list@.skip(from as int)),
        decreases list.len() - start,
    {
        proof {
            assert(list@.skip(start as int).drop_first() =~= list@.skip(start + 1));
        }
        start = start + 1;
    }
    start
}

/// `s` without leading and trailing white space.
pub fn trim<'a>(s: &'a str) -> (r: &'a str)
    ensures
        r@ == trimmed(s@),
{
    let list = chars_of(s);
    let start: usize = start_of_text(&list, 0);
    let end: usize = end_of_text(&list, start);
    proof {
        assert(list@.skip(0) =~= list@);
    }
    s.substring_char(start, end)
}

/// `s` without its trailing white space.
pub fn trim_end<'a>(s: &'a str) -> (r: &'a str)
    ensures
        r@ == trimmed_end(s@),
{
    let list = chars_of(s);
    let end: usize = end_of_text(&list, 0);
    proof {
        assert(list@.skip(0) =~= list@);
    }
    s.substring_char(0, end)
}

/// Whether `s` holds nothing but white space.
pub open spec fn is_blank(s: Seq<char>) -> bool {
    trimmed(s).len() == 0
}

/// Whether `s` holds nothing but white space.
pub fn blank(s: &str) -> (r: bool)
    ensures
        r == is_blank(s@),
{
    trim(s).is_empty()
}

/// Whether two strings hold the same characters.
pub fn same(a: &str, b: &str) -> (r: bool)
    ensures
        r == (a@ == b@),
{
    a.to_owned() == b.to_owned()
}

/// How many characters stand before the first `c` in `s`; all of them where there is none.
pub open spec fn run_before(s: Seq<char>, c: char) -> nat
    decreases s.len(),
{
    if s.len() == 0 || s[0] == c {
        0
    } else {
        1 + run_before(s.drop_first(), c)
    }
}

pub(crate) proof fn lemma_run_before(s: Seq<char>, c: char, n: nat)
    requires
        n <= s.len(),
        forall|i: int| 0 <= i < n ==> s[i] != c,
        n < s.len() ==> s[n as int] == c,
    ensures
        run_before(s, c) == n,
    decreases n,
{
    if n > 0 {
        lemma_run_before(s.drop_first(), c, (n - 1) as nat);
    }
}

/// The first line of a text that is not empty: what stands before the first line feed, without
/// the carriage return of a line that ends in both.
pub open spec fn first_line(s: Seq<char>) -> Seq<char> {
    let n = run_before(s, '\n') as int;
    if 0 < n < s.len() && s[n - 1] == '\r' {
        s.take(n - 1)
    } else {
        s.take(n)
    }
}

/// The lines of a text. A final line feed ends the last line and opens no further one.
pub open spec fn lines_of(s: Seq<char>) -> Seq<Seq<char>>
    decreases s.len(),
{
    let n = run_before(s, '\n') as int;
    if s.len() == 0 {
        Seq::empty()
    } else if n >= s.len() {
        seq![first_line(s)]
    } else {
        seq![first_line(s)] + lines_of(s.skip(n + 1))
    }
}

/// The lines of `s`.
pub fn lines(s: &str) -> (list: Vec<String>)
    ensures
        views(list@) == lines_of(s@),
{
    let cs = chars_of(s);
    let mut list: Vec<String> = Vec::new();
    let mut pos: usize = 0;
    proof {
        assert(cs@.skip(0) =~= cs@);
        assert(views(list@) + lines_of(cs@) =~= lines_of(cs@));
    }
    while pos < cs.len()
        invariant
            cs@ == s@,
            pos <= cs.len(),
            views(list@) + lines_of(cs@.skip(pos as int)) == lines_of(s@),
        decreases cs.len() - pos,
    {
        let mut end: usize = pos;
        while end < cs.len() && cs[end] != '\n'
            invariant
                pos <= end <= cs.len(),
                forall|i: int| pos <= i < end ==> cs[i] != '\n',
            decreases cs.len() - end,
        {
            end = end + 1;
        }
        let ghost rest = cs@.skip(pos as int);
        proof {
            lemma_run_before(rest, '\n', (end - pos) as nat);
        }
        let stop: usize = if pos < end && end < cs.len() && cs[end - 1] == '\r' {
            end - 1
        } else {
            end
        };
        let line = s.substring_char(pos, stop).to_owned();
        proof {
            assert(line@ =~= first_line(rest));
        }
        let ghost before = views(list@);
        list.push(line);
        proof {
            assert(views(list@) =~= before.push(line@));
        }
        if end < cs.len() {
            proof {
                assert(rest.skip(end - pos + 1) =~= cs@.skip(end + 1));
                assert(before + (seq![line@] + lines_of(cs@.skip(end + 1))) =~= views(list@)
                    + lines_of(cs@.skip(end + 1)));
            }
            pos = end + 1;
        } else {
            proof {
                assert(before + seq![line@] =~= views(list@) + lines_of(cs@.skip(end as int)));
            }
            pos = end;
        }
    }
    proof {
        assert(views(list@) + lines_of(cs@.skip(pos as int)) =~= views(list@));
    }
    list
}

/// The lines of a text that hold more than white space.
pub open spec fn filled_lines(s: Seq<char>) -> Seq<Seq<char>> {
    lines_of(s).filter(|line: Seq<char>| !is_blank(line))
}

/// How many lines of `s` hold more than white space.
pub fn count_filled_lines(s: &str) -> (n: usize)
    ensures
        n == filled_lines(s@).len(),
{
    let list = lines(s);
    let ghost keep = |line: Seq<char>| !is_blank(line);
    let mut n: usize = 0;
    let mut i: usize = 0;
    proof {
        assert(lines_of(s@).take(0).filter(keep).len() == 0) by {
            reveal(Seq::filter);
        }
    }
    while i < list.len()
        invariant
            i <= list.len(),
            views(list@) == lines_of(s@),
            keep == (|line: Seq<char>| !is_blank(line)),
            n == lines_of(s@).take(i as int).filter(keep).len(),
            n <= i,
        decreases list.len() - i,
    {
        proof {
            reveal(Seq::filter);
            assert(lines_of(s@).take(i + 1).drop_last() =~= lines_of(s@).take(i as int));
            assert(lines_of(s@)[i as int] == list@[i as int]@);
        }
        if !blank(&list[i]) {
            n = n + 1;
        }
        i = i + 1;
    }
    proof {
        assert(lines_of(s@).take(i as int) =~= lines_of(s@));
    }
    n
}

/// The lines of a text that hold more than white space, each without the white space round it.
pub open spec fn trimmed_lines(s: Seq<char>) -> Seq<Seq<char>> {
    filled_lines(s).map_values(|line: Seq<char>| trimmed(line))
}

/// The lines of `s` that hold more than white space, each without the white space round it.
pub fn filled_trimmed_lines(s: &str) -> (kept: Vec<String>)
    ensures
        views(kept@) == trimmed_lines(s@),
{
    let list = lines(s);
    let ghost keep = |line: Seq<char>| !is_blank(line);
    let ghost strip = |line: Seq<char>| trimmed(line);
    let mut kept: Vec<String> = Vec::new();
    let mut i: usize = 0;
    proof {
        reveal(Seq::filter);
        assert(views(kept@) =~= lines_of(s@).take(0).filter(keep).map_values(strip));
    }
    while i < list.len()
        invariant
            i <= list.len(),
            views(list@) == lines_of(s@),
            keep == (|line: Seq<char>| !is_blank(line)),
            strip == (|line: Seq<char>| trimmed(line)),
            views(kept@) == lines_of(s@).take(i as int).filter(keep).map_values(strip),
        decreases list.len() - i,
    {
        let ghost before = lines_of(s@).take(i as int).filter(keep);
        let ghost now = lines_of(s@).take(i + 1).filter(keep);
        let ghost old_kept = kept@;
        let line = trim(&list[i]).to_owned();
        proof {
            reveal(Seq::filter);
            assert(lines_of(s@).take(i + 1).drop_last() =~= lines_of(s@).take(i as int));
            assert(lines_of(s@)[i as int] == list@[i as int]@);
        }
        if !line.as_str().is_empty() {
            kept.push(line);
            proof {
                assert(now == before.push(list@[i as int]@));
                assert(views(kept@) =~= views(old_kept).push(line@));
                assert(now.map_values(strip) =~= before.map_values(strip).push(line@));
            }
        }
        i = i + 1;
    }
    proof {
        assert(lines_of(s@).take(i as int) =~= lines_of(s@));
    }
    kept
}

/// How many characters stand before the first white space in `s`.
pub open spec fn word_len(s: Seq<char>) -> nat
    decreases s.len(),
{
    if s.len() == 0 || is_space(s[0]) {
        0
    } else {
        1 + word_len(s.drop_first())
    }
}

pub(crate) proof fn lemma_word_len(s: Seq<char>, n: nat)
    requires
        n <= s.len(),
        forall|i: int| 0 <= i < n ==> !is_space(s[i]),
        n < s.len() ==> is_space(s[n as int]),
    ensures
        word_len(s) == n,
    decreases n,
{
    if n > 0 {
        lemma_word_len(s.drop_first(), (n - 1) as nat);
    }
}

/// The words of a text: its longest stretches without white space, in order.
pub open spec fn words_of(s: Seq<char>) -> Seq<Seq<char>>
    decreases s.len(),
    via words_of_shrinks
{
    let t = trimmed_start(s);
    if t.len() == 0 {
        Seq::empty()
    } else {
        seq![t.take(word_len(t) as int)] + words_of(t.skip(word_len(t) as int))
    }
}

#[via_fn]
proof fn words_of_shrinks(s: Seq<char>) {
    lemma_trimmed_start(s);
    let t = trimmed_start(s);
    if t.len() > 0 {
        lemma_word_len_bound(t);
    }
}

proof fn lemma_trimmed_start(s: Seq<char>)
    ensures
        trimmed_start(s).len() <= s.len(),
        trimmed_start(s).len() > 0 ==> !is_space(trimmed_start(s)[0]),
    decreases s.len(),
{
    if s.len() > 0 && is_space(s[0]) {
        lemma_trimmed_start(s.drop_first());
    }
}

proof fn lemma_word_len_bound(s: Seq<char>)
    ensures
        word_len(s) <= s.len(),
    decreases s.len(),
{
    if s.len() > 0 && !is_space(s[0]) {
        lemma_word_len_bound(s.drop_first());
    }
}

/// The words of `s`.
pub fn words(s: &str) -> (list: Vec<String>)
    ensures
        views(list@) == words_of(s@),
{
    let cs = chars_of(s);
    let mut list: Vec<String> = Vec::new();
    let mut pos: usize = start_of_text(&cs, 0);
    proof {
        assert(cs@.skip(0) =~= cs@);
        lemma_words_of_trimmed(s@);
        lemma_trimmed_start(s@);
        if pos < cs.len() {
            assert(cs@.skip(pos as int)[0] == cs@[pos as int]);
        }
        assert(views(list@) + words_of(cs@.skip(pos as int)) =~= words_of(s@));
    }
    while pos < cs.len()
        invariant
            cs@ == s@,
            pos <= cs.len(),
            pos < cs.len() ==> !is_space(cs[pos as int]),
            views(list@) + words_of(cs@.skip(pos as int)) == words_of(s@),
        decreases cs.len() - pos,
    {
        let mut end: usize = pos;
        while end < cs.len() && !space(cs[end])
            invariant
                pos <= end <= cs.len(),
                forall|i: int| pos <= i < end ==> !is_space(cs[i]),
            decreases cs.len() - end,
        {
            end = end + 1;
        }
        let ghost rest = cs@.skip(pos as int);
        let word = s.substring_char(pos, end).to_owned();
        let ghost before = views(list@);
        list.push(word);
        let next: usize = start_of_text(&cs, end);
        proof {
            lemma_word_len(rest, (end - pos) as nat);
            assert(trimmed_start(rest) == rest);
            assert(rest.take(end - pos) =~= word@);
            assert(rest.skip(end - pos) =~= cs@.skip(end as int));
            assert(views(list@) =~= before.push(word@));
            lemma_words_of_trimmed(cs@.skip(end as int));
            assert(before + (seq![word@] + words_of(cs@.skip(next as int))) =~= views(list@)
                + words_of(cs@.skip(next as int)));
            lemma_trimmed_start(cs@.skip(end as int));
            if next < cs.len() {
                assert(cs@.skip(next as int)[0] == cs@[next as int]);
            }
        }
        pos = next;
    }
    proof {
        assert(views(list@) + words_of(cs@.skip(pos as int)) =~= views(list@));
    }
    list
}

pub(crate) proof fn lemma_words_of_trimmed(s: Seq<char>)
    ensures
        words_of(trimmed_start(s)) == words_of(s),
    decreases s.len(),
{
    lemma_trimmed_start(s);
    let t = trimmed_start(s);
    assert(trimmed_start(t) == t);
}

/// Whether `s` begins with `part`.
pub open spec fn begins(s: Seq<char>, part: Seq<char>) -> bool {
    part.len() <= s.len() && s.take(part.len() as int) == part
}

/// What follows `part` at the start of `s`, where `s` begins with it.
pub fn strip_prefix(s: &str, part: &str) -> (rest: Option<String>)
    ensures
        rest is Some <==> begins(s@, part@),
        rest matches Some(text) ==> text@ == s@.skip(part@.len() as int),
{
    let n: usize = part.unicode_len();
    let len: usize = s.unicode_len();
    if n <= len && same(s.substring_char(0, n), part) {
        let text = s.substring_char(n, len).to_owned();
        proof {
            assert(text@ =~= s@.skip(part@.len() as int));
        }
        Some(text)
    } else {
        None
    }
}

/// Whether `s` ends with `part`.
pub open spec fn ends(s: Seq<char>, part: Seq<char>) -> bool {
    part.len() <= s.len() && s.skip(s.len() - part.len()) == part
}

/// `s` with `new` in the place of `part`, which it ends with.
pub open spec fn with_end(s: Seq<char>, part: Seq<char>, new: Seq<char>) -> Seq<char> {
    s.take(s.len() - part.len()) + new
}

/// Puts `new` in the place of `part` at the end of `s`.
pub fn replace_end(s: &str, part: &str, new: &str) -> (r: String)
    requires
        ends(s@, part@),
    ensures
        r@ == with_end(s@, part@, new@),
{
    let n: usize = s.unicode_len() - part.unicode_len();
    let head = s.substring_char(0, n).to_owned();
    proof {
        assert(head@ =~= s@.take(n as int));
    }
    head.concat(new)
}

/// What follows the last `c` in `s`; all of `s` where there is none.
pub open spec fn after_last(s: Seq<char>, c: char) -> Seq<char>
    decreases s.len(),
{
    if s.len() == 0 || s.last() == c {
        Seq::empty()
    } else {
        after_last(s.drop_last(), c).push(s.last())
    }
}

/// What follows the last slash in `s`; all of `s` where there is none.
pub fn last_segment(s: &str) -> (r: String)
    ensures
        r@ == after_last(s@, '/'),
{
    let cs = chars_of(s);
    let mut start: usize = cs.len();
    proof {
        assert(cs@.subrange(start as int, cs.len() as int) =~= Seq::empty());
        assert(cs@.take(start as int) =~= cs@);
        assert(after_last(cs@, '/') + Seq::<char>::empty() =~= after_last(cs@, '/'));
    }
    while start > 0 && cs[start - 1] != '/'
        invariant
            cs@ == s@,
            start <= cs.len(),
            after_last(s@, '/') == after_last(s@.take(start as int), '/') + s@.subrange(
                start as int,
                s@.len() as int,
            ),
        decreases start,
    {
        proof {
            let t = s@.take(start as int);
            assert(t.drop_last() =~= s@.take(start - 1));
            assert(after_last(t.drop_last(), '/').push(t.last()) + s@.subrange(
                start as int,
                s@.len() as int,
            ) =~= after_last(t.drop_last(), '/') + s@.subrange(start - 1, s@.len() as int));
        }
        start = start - 1;
    }
    proof {
        assert(after_last(s@.take(start as int), '/') + s@.subrange(start as int, s@.len() as int)
            =~= s@.subrange(start as int, s@.len() as int));
    }
    s.substring_char(start, cs.len()).to_owned()
}

/// The sixteen digits, in order of value.
pub open spec fn digit_char(d: int) -> char {
    seq!['0', '1', '2', '3', '4', '5', '6', '7', '8', '9', 'a', 'b', 'c', 'd', 'e', 'f'][d]
}

fn digit(d: u64) -> (r: &'static str)
    requires
        d < 16,
    ensures
        r@ == seq![digit_char(d as int)],
{
    let r = match d {
        0 => "0",
        1 => "1",
        2 => "2",
        3 => "3",
        4 => "4",
        5 => "5",
        6 => "6",
        7 => "7",
        8 => "8",
        9 => "9",
        10 => "a",
        11 => "b",
        12 => "c",
        13 => "d",
        14 => "e",
        _ => "f",
    };
    proof {
        reveal_strlit("0");
        reveal_strlit("1");
        reveal_strlit("2");
        reveal_strlit("3");
        reveal_strlit("4");
        reveal_strlit("5");
        reveal_strlit("6");
        reveal_strlit("7");
        reveal_strlit("8");
        reveal_strlit("9");
        reveal_strlit("a");
        reveal_strlit("b");
        reveal_strlit("c");
        reveal_strlit("d");
        reveal_strlit("e");
        reveal_strlit("f");
        assert(r@ =~= seq![digit_char(d as int)]);
    }
    r
}

/// `n` written in the given base, without leading zeros.
pub open spec fn numeral(n: nat, base: nat) -> Seq<char>
    recommends
        2 <= base <= 16,
    decreases n,
{
    if base < 2 || n < base {
        seq![digit_char(n as int)]
    } else {
        proof {
            assert(n / base < n) by (nonlinear_arith)
                requires
                    base >= 2,
                    n >= base,
            ;
        }
        numeral(n / base, base).push(digit_char((n % base) as int))
    }
}

/// `n` in decimal notation.
pub open spec fn decimal(n: int) -> Seq<char> {
    numeral(n as nat, 10)
}

fn push_numeral(out: &mut String, n: u64, base: u64)
    requires
        2 <= base <= 16,
    ensures
        final(out)@ == old(out)@ + numeral(n as nat, base as nat),
    decreases n,
{
    if n < base {
        out.append(digit(n));
    } else {
        proof {
            assert(n / base < n) by (nonlinear_arith)
                requires
                    base >= 2,
                    n >= base,
            ;
            assert(n % base < base) by (nonlinear_arith)
                requires
                    base >= 2,
            ;
        }
        push_numeral(out, n / base, base);
        let ghost head = numeral(n as nat / base as nat, base as nat);
        out.append(digit(n % base));
        proof {
            let c = digit_char((n % base) as int);
            assert(old(out)@ + head + seq![c] =~= old(out)@ + head.push(c));
        }
    }
}

/// `n` in decimal notation.
pub fn show(n: u64) -> (r: String)
    ensures
        r@ == decimal(n as int),
{
    let mut out = String::new();
    push_numeral(&mut out, n, 10);
    proof {
        assert(Seq::<char>::empty() + decimal(n as int) =~= decimal(n as int));
    }
    out
}

/// `n` in hexadecimal notation, in lower case.
pub fn show_hex(n: u64) -> (r: String)
    ensures
        r@ == numeral(n as nat, 16),
{
    let mut out = String::new();
    push_numeral(&mut out, n, 16);
    proof {
        assert(Seq::<char>::empty() + numeral(n as nat, 16) =~= numeral(n as nat, 16));
    }
    out
}

/// Whether `c` is one of the ten decimal digits.
pub open spec fn is_digit(c: char) -> bool {
    '0' <= c <= '9'
}

/// Whether `s` holds nothing but decimal digits.
pub open spec fn all_digits(s: Seq<char>) -> bool {
    forall|i: int| 0 <= i < s.len() ==> is_digit(#[trigger] s[i])
}

/// The number that a row of decimal digits stands for.
pub open spec fn value_of(s: Seq<char>) -> nat
    decreases s.len(),
{
    if s.len() == 0 {
        0
    } else {
        value_of(s.drop_last()) * 10 + (s.last() as u32 - '0' as u32) as nat
    }
}

/// The number that `s` stands for: decimal digits, at least one, with or without a plus sign
/// before them.
pub open spec fn parsed(s: Seq<char>) -> Option<nat> {
    let body = if s.len() > 0 && s[0] == '+' {
        s.skip(1)
    } else {
        s
    };
    if body.len() > 0 && all_digits(body) {
        Some(value_of(body))
    } else {
        None
    }
}

proof fn lemma_value_grows(s: Seq<char>, n: int)
    requires
        0 <= n <= s.len(),
    ensures
        value_of(s.take(n)) <= value_of(s),
    decreases s.len() - n,
{
    if n < s.len() {
        lemma_value_grows(s, n + 1);
        assert(s.take(n + 1).drop_last() =~= s.take(n));
    } else {
        assert(s.take(n) =~= s);
    }
}

/// Reads a count: the number that `s` stands for, where there is one and it fits.
pub fn parse_count(s: &str) -> (r: Option<usize>)
    ensures
        r == match parsed(s@) {
            Some(n) if n <= usize::MAX => Some(n as usize),
            _ => None,
        },
{
    let cs = chars_of(s);
    let start: usize = if cs.len() > 0 && cs[0] == '+' {
        1
    } else {
        0
    };
    let ghost body = s@.skip(start as int);
    proof {
        assert(s@.skip(0) =~= s@);
    }
    if cs.len() == start {
        return None;
    }
    let mut total: usize = 0;
    let mut i: usize = start;
    while i < cs.len()
        invariant
            cs@ == s@,
            start <= i <= cs.len(),
            start <= 1,
            start < cs.len(),
            body == s@.skip(start as int),
            parsed(s@) == (if all_digits(body) {
                Some(value_of(body))
            } else {
                None
            }),
            total == value_of(body.take(i - start)),
            forall|k: int| 0 <= k < i - start ==> is_digit(#[trigger] body[k]),
        decreases cs.len() - i,
    {
        let c: char = cs[i];
        proof {
            assert(c == body[i - start]);
        }
        if c < '0' || '9' < c {
            proof {
                assert(!is_digit(body[i - start]));
            }
            return None;
        }
        let d: usize = (c as u32 - '0' as u32) as usize;
        proof {
            assert(body.take(i - start + 1).drop_last() =~= body.take(i - start));
            lemma_value_grows(body, i - start + 1);
        }
        if total > (usize::MAX - d) / 10 {
            proof {
                assert(total * 10 + d > usize::MAX);
            }
            return None;
        }
        total = total * 10 + d;
        i = i + 1;
    }
    proof {
        assert(body.take(i - start) =~= body);
    }
    Some(total)
}

/// Whether `a` stands before `b`: at the first place where they differ, by the code points there;
/// where one continues the other, the shorter one first.
pub open spec fn precedes(a: Seq<char>, b: Seq<char>) -> bool
    decreases a.len(),
{
    if b.len() == 0 {
        false
    } else if a.len() == 0 {
        true
    } else if a[0] == b[0] {
        precedes(a.drop_first(), b.drop_first())
    } else {
        a[0] < b[0]
    }
}

pub proof fn lemma_precedes_irreflexive(a: Seq<char>)
    ensures
        !precedes(a, a),
    decreases a.len(),
{
    if a.len() > 0 {
        lemma_precedes_irreflexive(a.drop_first());
    }
}

pub proof fn lemma_precedes_transitive(a: Seq<char>, b: Seq<char>, c: Seq<char>)
    requires
        precedes(a, b),
        precedes(b, c),
    ensures
        precedes(a, c),
    decreases a.len(),
{
    if a.len() > 0 && b.len() > 0 && c.len() > 0 && a[0] == b[0] && b[0] == c[0] {
        lemma_precedes_transitive(a.drop_first(), b.drop_first(), c.drop_first());
    }
}

/// Where one text stands relative to another.
#[derive(Debug, Clone, Copy, PartialEq, Eq)]
pub enum Place {
    Before,
    Same,
    After,
}

/// Where `a` stands relative to `b`.
pub fn place(a: &str, b: &str) -> (r: Place)
    ensures
        r is Before <==> precedes(a@, b@),
        r is Same <==> a@ == b@,
        r is After <==> precedes(b@, a@),
{
    let xs = chars_of(a);
    let ys = chars_of(b);
    let mut i: usize = 0;
    proof {
        assert(a@.skip(0) =~= a@);
        assert(b@.skip(0) =~= b@);
    }
    while i < xs.len() && i < ys.len() && xs[i] == ys[i]
        invariant
            xs@ == a@,
            ys@ == b@,
            i <= xs.len(),
            i <= ys.len(),
            a@.take(i as int) =~= b@.take(i as int),
            precedes(a@, b@) == precedes(a@.skip(i as int), b@.skip(i as int)),
            precedes(b@, a@) == precedes(b@.skip(i as int), a@.skip(i as int)),
        decreases xs.len() - i,
    {
        proof {
            assert(a@.skip(i as int).drop_first() =~= a@.skip(i + 1));
            assert(b@.skip(i as int).drop_first() =~= b@.skip(i + 1));
            assert(a@.take(i + 1) =~= a@.take(i as int).push(a@[i as int]));
            assert(b@.take(i + 1) =~= b@.take(i as int).push(b@[i as int]));
        }
        i = i + 1;
    }
    let ghost n = i as int;
    if i == xs.len() && i == ys.len() {
        proof {
            assert(a@.take(n) =~= a@);
            assert(b@.take(n) =~= b@);
        }
        Place::Same
    } else if i == xs.len() {
        Place::Before
    } else if i == ys.len() {
        Place::After
    } else {
        proof {
            assert(a@.skip(n)[0] == a@[n]);
            assert(b@.skip(n)[0] == b@[n]);
        }
        if xs[i] < ys[i] {
            Place::Before
        } else {
            Place::After
        }
    }
}

} // verus!
