//! Text as a sequence of characters: classes of characters, runs of one
//! class, lines, trimming, and words separated by white space.

use vstd::prelude::*;

verus! {

/// The classes of characters by which text is cut into pieces.
#[derive(Clone, Copy, Debug, PartialEq, Eq, Structural)]
pub enum CharClass {
    /// White space, as Unicode defines it.
    Space,
    /// Anything but white space.
    Word,
    /// Anything but a line feed.
    InLine,
    /// An ASCII decimal digit.
    Digit,
    /// Anything but the space character.
    Unspaced,
}

/// Unicode's `White_Space` property.
pub open spec fn is_whitespace(c: char) -> bool {
    let u = c as u32;
    ||| 0x09 <= u <= 0x0D
    ||| u == 0x20
    ||| u == 0x85
    ||| u == 0xA0
    ||| u == 0x1680
    ||| 0x2000 <= u <= 0x200A
    ||| u == 0x2028
    ||| u == 0x2029
    ||| u == 0x202F
    ||| u == 0x205F
    ||| u == 0x3000
}

/// Whether `c` is one of `0` to `9`.
pub open spec fn is_digit(c: char) -> bool {
    0x30 <= c as u32 <= 0x39
}

/// Whether `c` belongs to the class `k`.
pub open spec fn in_class(k: CharClass, c: char) -> bool {
    match k {
        CharClass::Space => is_whitespace(c),
        CharClass::Word => !is_whitespace(c),
        CharClass::InLine => c != '\n',
        CharClass::Digit => is_digit(c),
        CharClass::Unspaced => c != ' ',
    }
}

/// The length of the longest prefix of `s` made of characters of class `k`.
pub open spec fn prefix_len(s: Seq<char>, k: CharClass) -> nat
    decreases s.len(),
{
    if s.len() == 0 || !in_class(k, s[0]) {
        0
    } else {
        1 + prefix_len(s.skip(1), k)
    }
}

/// The length of the longest suffix of `s` made of characters of class `k`.
pub open spec fn suffix_len(s: Seq<char>, k: CharClass) -> nat
    decreases s.len(),
{
    if s.len() == 0 || !in_class(k, s.last()) {
        0
    } else {
        1 + suffix_len(s.drop_last(), k)
    }
}

/// A prefix of class `k` that ends at the end of `s` or before a character of
/// another class is the longest one.
pub proof fn lemma_prefix_len(s: Seq<char>, k: CharClass, n: int)
    requires
        0 <= n <= s.len(),
        forall|i: int| 0 <= i < n ==> in_class(k, #[trigger] s[i]),
        n == s.len() || !in_class(k, s[n]),
    ensures
        prefix_len(s, k) == n,
    decreases n,
{
    if n > 0 {
        let t = s.skip(1);
        assert forall|i: int| 0 <= i < n - 1 implies in_class(k, #[trigger] t[i]) by {
            assert(t[i] == s[i + 1]);
        }
        lemma_prefix_len(t, k, n - 1);
    }
}

/// The longest prefix of class `k` holds only that class and stops at the end
/// of `s` or before a character of another class.
pub proof fn lemma_prefix_len_is_run(s: Seq<char>, k: CharClass)
    ensures
        prefix_len(s, k) <= s.len(),
        forall|i: int| 0 <= i < prefix_len(s, k) ==> in_class(k, #[trigger] s[i]),
        prefix_len(s, k) == s.len() || !in_class(k, s[prefix_len(s, k) as int]),
    decreases s.len(),
{
    if s.len() > 0 && in_class(k, s[0]) {
        let t = s.skip(1);
        lemma_prefix_len_is_run(t, k);
        assert forall|i: int| 0 <= i < prefix_len(s, k) implies in_class(k, #[trigger] s[i]) by {
            if i > 0 {
                assert(s[i] == t[i - 1]);
            }
        }
    }
}

/// A suffix of class `k` that starts at the start of `s` or after a character
/// of another class is the longest one.
pub proof fn lemma_suffix_len(s: Seq<char>, k: CharClass, n: int)
    requires
        0 <= n <= s.len(),
        forall|i: int| s.len() - n <= i < s.len() ==> in_class(k, #[trigger] s[i]),
        n == s.len() || !in_class(k, s[s.len() - n - 1]),
    ensures
        suffix_len(s, k) == n,
    decreases n,
{
    if n > 0 {
        let t = s.drop_last();
        assert forall|i: int| t.len() - (n - 1) <= i < t.len() implies in_class(
            k,
            #[trigger] t[i],
        ) by {
            assert(t[i] == s[i]);
        }
        lemma_suffix_len(t, k, n - 1);
    }
}

/// `s` without the white space at its two ends.
pub open spec fn trim(s: Seq<char>) -> Seq<char> {
    let rest = s.skip(prefix_len(s, CharClass::Space) as int);
    rest.take(rest.len() - suffix_len(rest, CharClass::Space))
}

/// The lines of `s`. A line ends at a line feed or at the end of `s`; the line
/// feed, and a carriage return just before it, belong to no line. Text that
/// ends in a line feed has no empty last line.
pub open spec fn lines(s: Seq<char>) -> Seq<Seq<char>>
    decreases s.len(),
{
    if s.len() == 0 {
        Seq::empty()
    } else {
        let n = prefix_len(s, CharClass::InLine) as int;
        if n < s.len() {
            let line = if n > 0 && s[n - 1] == '\r' {
                s.take(n - 1)
            } else {
                s.take(n)
            };
            seq![line] + lines(s.skip(n + 1))
        } else {
            seq![s]
        }
    }
}

/// The words of `s`: its longest runs of characters that are not white space.
pub open spec fn words(s: Seq<char>) -> Seq<Seq<char>>
    decreases s.len(),
    via words_decreases
{
    let rest = s.skip(prefix_len(s, CharClass::Space) as int);
    let n = prefix_len(rest, CharClass::Word) as int;
    if n == 0 {
        Seq::empty()
    } else {
        seq![rest.take(n)] + words(rest.skip(n))
    }
}

#[via_fn]
proof fn words_decreases(s: Seq<char>) {
    lemma_prefix_len_is_run(s, CharClass::Space);
    lemma_prefix_len_is_run(s.skip(prefix_len(s, CharClass::Space) as int), CharClass::Word);
}

/// The pieces of `s` between its space characters. Two spaces in a row, and
/// a space at either end, bound an empty piece.
pub open spec fn fields(s: Seq<char>) -> Seq<Seq<char>>
    decreases s.len(),
{
    let n = prefix_len(s, CharClass::Unspaced) as int;
    if n < s.len() {
        seq![s.take(n)] + fields(s.skip(n + 1))
    } else {
        seq![s]
    }
}

/// Whether `s` begins with `p`.
pub open spec fn starts_with(s: Seq<char>, p: Seq<char>) -> bool {
    p.len() <= s.len() && s.take(p.len() as int) == p
}

/// The characters of a string slice, in order.
pub fn chars_of(s: &str) -> (v: Vec<char>)
    ensures
        v@ == s@,
{
    let mut v: Vec<char> = Vec::new();
    for c in it: s.chars()
        invariant
            v@ == it.seq().take(it.index() as int),
            it.seq() == s@,
    {
        v.push(c);
    }
    v
}

/// Whether `c` is white space.
pub fn char_is_whitespace(c: char) -> (b: bool)
    ensures
        b == is_whitespace(c),
{
    let u: u32 = c as u32;
    (0x09 <= u && u <= 0x0D) || u == 0x20 || u == 0x85 || u == 0xA0 || u == 0x1680 || (0x2000 <= u
        && u <= 0x200A) || u == 0x2028 || u == 0x2029 || u == 0x202F || u == 0x205F || u == 0x3000
}

/// Whether `c` belongs to the class `k`.
pub fn char_in_class(k: CharClass, c: char) -> (b: bool)
    ensures
        b == in_class(k, c),
{
    match k {
        CharClass::Space => char_is_whitespace(c),
        CharClass::Word => !char_is_whitespace(c),
        CharClass::InLine => c != '\n',
        CharClass::Digit => {
            let u: u32 = c as u32;
            0x30 <= u && u <= 0x39
        },
        CharClass::Unspaced => c != ' ',
    }
}

/// The end of the longest run of class `k` that starts at `from`.
pub fn run_end(v: &Vec<char>, from: usize, k: CharClass) -> (to: usize)
    requires
        from <= v.len(),
    ensures
        from <= to <= v.len(),
        to == from + prefix_len(v@.skip(from as int), k),
        forall|i: int| from <= i < to ==> in_class(k, #[trigger] v@[i]),
        to == v.len() || !in_class(k, v@[to as int]),
{
    let mut to: usize = from;
    while to < v.len() && char_in_class(k, v[to])
        invariant
            from <= to <= v.len(),
            forall|i: int| from <= i < to ==> in_class(k, #[trigger] v@[i]),
        decreases v.len() - to,
    {
        to += 1;
    }
    proof {
        let t = v@.skip(from as int);
        assert forall|i: int| 0 <= i < to - from implies in_class(k, #[trigger] t[i]) by {
            assert(t[i] == v@[from + i]);
        }
        lemma_prefix_len(t, k, to - from);
    }
    to
}

/// The start of the longest run of class `k` that ends at `to` and does not
/// reach back beyond `from`.
pub fn run_start(v: &Vec<char>, from: usize, to: usize, k: CharClass) -> (at: usize)
    requires
        from <= to <= v.len(),
    ensures
        from <= at <= to,
        at == to - suffix_len(v@.subrange(from as int, to as int), k),
{
    let mut at: usize = to;
    while at > from && char_in_class(k, v[at - 1])
        invariant
            from <= at <= to <= v.len(),
            forall|i: int| at <= i < to ==> in_class(k, #[trigger] v@[i]),
        decreases at,
    {
        at -= 1;
    }
    proof {
        let t = v@.subrange(from as int, to as int);
        assert forall|i: int| t.len() - (to - at) <= i < t.len() implies in_class(
            k,
            #[trigger] t[i],
        ) by {
            assert(t[i] == v@[from + i]);
        }
        if at > from {
            assert(t[at - from - 1] == v@[at - 1]);
        }
        lemma_suffix_len(t, k, to - at);
    }
    at
}

/// Where each word of `v` starts and ends.
pub fn word_spans(v: &Vec<char>) -> (spans: Vec<(usize, usize)>)
    ensures
        spans.len() == words(v@).len(),
        forall|k: int|
            #![trigger spans[k]]
            0 <= k < spans.len() ==> spans[k].0 < spans[k].1 <= v.len() && v@.subrange(
                spans[k].0 as int,
                spans[k].1 as int,
            ) == words(v@)[k],
{
    let mut spans: Vec<(usize, usize)> = Vec::new();
    let mut i: usize = 0;
    let ghost mut found: Seq<Seq<char>> = Seq::empty();
    proof {
        assert(v@.skip(0) == v@);
    }
    loop
        invariant
            i <= v.len(),
            found + words(v@.skip(i as int)) == words(v@),
            spans.len() == found.len(),
            forall|k: int|
                #![trigger spans[k]]
                0 <= k < spans.len() ==> spans[k].0 < spans[k].1 <= v.len() && v@.subrange(
                    spans[k].0 as int,
                    spans[k].1 as int,
                ) == found[k],
        ensures
            found == words(v@),
        decreases v.len() - i,
    {
        let a = run_end(v, i, CharClass::Space);
        let b = run_end(v, a, CharClass::Word);
        proof {
            let tail = v@.skip(i as int);
            let rest = tail.skip(prefix_len(tail, CharClass::Space) as int);
            assert(rest == v@.skip(a as int));
            assert(rest.take(b - a) == v@.subrange(a as int, b as int));
            assert(rest.skip(b - a) == v@.skip(b as int));
        }
        if b == a {
            proof {
                assert(words(v@.skip(i as int)) == Seq::<Seq<char>>::empty());
                assert(found + Seq::<Seq<char>>::empty() == found);
            }
            break ;
        }
        proof {
            let word = v@.subrange(a as int, b as int);
            assert(words(v@.skip(i as int)) == seq![word] + words(v@.skip(b as int)));
            assert(found.push(word) + words(v@.skip(b as int)) == found + (seq![word] + words(
                v@.skip(b as int),
            )));
            found = found.push(word);
        }
        spans.push((a, b));
        i = b;
    }
    spans
}

/// Where each line of `v` starts and ends.
pub fn line_spans(v: &Vec<char>) -> (spans: Vec<(usize, usize)>)
    ensures
        spans.len() == lines(v@).len(),
        forall|k: int|
            #![trigger spans[k]]
            0 <= k < spans.len() ==> spans[k].0 <= spans[k].1 <= v.len() && v@.subrange(
                spans[k].0 as int,
                spans[k].1 as int,
            ) == lines(v@)[k],
{
    let mut spans: Vec<(usize, usize)> = Vec::new();
    let mut i: usize = 0;
    let ghost mut found: Seq<Seq<char>> = Seq::empty();
    proof {
        assert(v@.skip(0) == v@);
    }
    while i < v.len()
        invariant
            i <= v.len(),
            found + lines(v@.skip(i as int)) == lines(v@),
            spans.len() == found.len(),
            forall|k: int|
                #![trigger spans[k]]
                0 <= k < spans.len() ==> spans[k].0 <= spans[k].1 <= v.len() && v@.subrange(
                    spans[k].0 as int,
                    spans[k].1 as int,
                ) == found[k],
        decreases v.len() - i,
    {
        let e = run_end(v, i, CharClass::InLine);
        let ghost tail = v@.skip(i as int);
        if e < v.len() {
            let b: usize = if e > i && v[e - 1] == '\r' {
                e - 1
            } else {
                e
            };
            proof {
                let line = v@.subrange(i as int, b as int);
                assert(e > i ==> tail[e - i - 1] == v@[e - 1]);
                assert(tail.take(b - i) == line);
                assert(tail.skip(e - i + 1) == v@.skip(e + 1));
                assert(lines(tail) == seq![line] + lines(v@.skip(e + 1)));
                assert(found.push(line) + lines(v@.skip(e + 1)) == found + (seq![line] + lines(
                    v@.skip(e + 1),
                )));
                found = found.push(line);
            }
            spans.push((i, b));
            i = e + 1;
        } else {
            proof {
                let line = v@.subrange(i as int, e as int);
                assert(tail == line);
                assert(lines(tail) == seq![line]);
                assert(lines(v@.skip(e as int)) == Seq::<Seq<char>>::empty());
                assert(found.push(line) + Seq::<Seq<char>>::empty() == found + seq![line]);
                found = found.push(line);
            }
            spans.push((i, e));
            i = e;
        }
    }
    proof {
        assert(lines(v@.skip(i as int)) == Seq::<Seq<char>>::empty());
        assert(found + Seq::<Seq<char>>::empty() == found);
    }
    spans
}

/// Where `v` without the white space at its two ends starts and ends.
pub fn trim_span(v: &Vec<char>, from: usize, to: usize) -> (span: (usize, usize))
    requires
        from <= to <= v.len(),
    ensures
        from <= span.0 <= span.1 <= to,
        v@.subrange(span.0 as int, span.1 as int) == trim(v@.subrange(from as int, to as int)),
{
    let ghost s = v@.subrange(from as int, to as int);
    let mut a: usize = from;
    while a < to && char_is_whitespace(v[a])
        invariant
            from <= a <= to <= v.len(),
            forall|i: int| from <= i < a ==> is_whitespace(#[trigger] v@[i]),
        decreases to - a,
    {
        a += 1;
    }
    proof {
        assert forall|i: int| 0 <= i < a - from implies in_class(
            CharClass::Space,
            #[trigger] s[i],
        ) by {
            assert(s[i] == v@[from + i]);
        }
        if a < to {
            assert(s[a - from] == v@[a as int]);
        }
        lemma_prefix_len(s, CharClass::Space, a - from);
        assert(s.skip(a - from) == v@.subrange(a as int, to as int));
    }
    let b = run_start(v, a, to, CharClass::Space);
    proof {
        let rest = v@.subrange(a as int, to as int);
        assert(rest.take(b - a) == v@.subrange(a as int, b as int));
    }
    (a, b)
}

/// Whether the characters of `v` from `from` on begin with those of `p`.
pub fn begins_with(v: &Vec<char>, from: usize, to: usize, p: &Vec<char>) -> (b: bool)
    requires
        from <= to <= v.len(),
    ensures
        b == starts_with(v@.subrange(from as int, to as int), p@),
{
    let ghost s = v@.subrange(from as int, to as int);
    if p.len() > to - from {
        return false;
    }
    let mut i: usize = 0;
    while i < p.len()
        invariant
            from <= to <= v.len(),
            i <= p.len() <= to - from,
            s == v@.subrange(from as int, to as int),
            forall|j: int| 0 <= j < i ==> s[j] == p@[j],
        decreases p.len() - i,
    {
        if v[from + i] != p[i] {
            proof {
                assert(s.take(p.len() as int)[i as int] == s[i as int]);
                assert(s[i as int] == v@[from + i]);
            }
            return false;
        }
        proof {
            assert(s[i as int] == v@[from + i]);
        }
        i += 1;
    }
    proof {
        assert(s.take(p.len() as int) =~= p@);
    }
    true
}

} // verus!
