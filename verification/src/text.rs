//! Text functions on sequences of characters: splitting, joining, words.
use vstd::prelude::*;

verus! {

/// What an optional text stands for.
pub open spec fn str_view(s: Option<&str>) -> Option<Seq<char>> {
    match s {
        Some(s) => Some(s@),
        None => None,
    }
}

/// What an optional owned text stands for.
pub open spec fn string_view(s: Option<String>) -> Option<Seq<char>> {
    match s {
        Some(s) => Some(s@),
        None => None,
    }
}

/// Borrows an optional text.
pub fn as_str<'a>(s: &'a Option<String>) -> (r: Option<&'a str>)
    ensures
        str_view(r) == string_view(*s),
{
    match s {
        Some(s) => Some(s.as_str()),
        None => None,
    }
}

/// Whether `c` has the Unicode property White_Space.
pub open spec fn is_white_space(c: char) -> bool {
    let n = c as u32;
    ||| 0x09 <= n <= 0x0d
    ||| n == 0x20
    ||| n == 0x85
    ||| n == 0xa0
    ||| n == 0x1680
    ||| 0x2000 <= n <= 0x200a
    ||| n == 0x2028
    ||| n == 0x2029
    ||| n == 0x202f
    ||| n == 0x205f
    ||| n == 0x3000
}

/// Length of the longest prefix of `s` without white space.
pub open spec fn word_len(s: Seq<char>) -> nat
    decreases s.len(),
{
    if s.len() == 0 || is_white_space(s[0]) {
        0
    } else {
        1 + word_len(s.skip(1))
    }
}

/// The words of `s`: its longest runs of characters that are not white space, in order.
pub open spec fn words(s: Seq<char>) -> Seq<Seq<char>>
    decreases s.len(),
{
    if s.len() == 0 {
        seq![]
    } else if is_white_space(s[0]) {
        words(s.skip(1))
    } else {
        proof {
            lemma_word_len(s);
        }
        seq![s.take(word_len(s) as int)] + words(s.skip(word_len(s) as int))
    }
}

/// Not empty, and without white space.
pub open spec fn is_word(w: Seq<char>) -> bool {
    &&& w.len() > 0
    &&& forall|i: int| 0 <= i < w.len() ==> !is_white_space(#[trigger] w[i])
}

/// What stands before the first `sep` in `s`; all of `s` where there is none.
pub open spec fn until(s: Seq<char>, sep: char) -> Seq<char>
    decreases s.len(),
{
    if s.len() == 0 || s[0] == sep {
        seq![]
    } else {
        seq![s[0]] + until(s.skip(1), sep)
    }
}

/// What stands behind the first occurrence of `pat` in `s`, if there is one.
pub open spec fn after_first(s: Seq<char>, pat: Seq<char>) -> Option<Seq<char>>
    decreases s.len(),
{
    if pat.is_prefix_of(s) {
        Some(s.skip(pat.len() as int))
    } else if s.len() == 0 {
        None
    } else {
        after_first(s.skip(1), pat)
    }
}

/// The pieces of `s` between the separators `sep`: one more than there are separators.
pub open spec fn split_on(s: Seq<char>, sep: char) -> Seq<Seq<char>>
    decreases s.len(),
{
    let head = until(s, sep);
    if head.len() < s.len() {
        seq![head] + split_on(s.skip(head.len() as int + 1), sep)
    } else {
        seq![s]
    }
}

/// `parts` one after the other, with `sep` between two of them.
pub open spec fn join(parts: Seq<Seq<char>>, sep: char) -> Seq<char>
    decreases parts.len(),
{
    if parts.len() == 0 {
        seq![]
    } else if parts.len() == 1 {
        parts[0]
    } else {
        parts[0] + seq![sep] + join(parts.skip(1), sep)
    }
}

pub proof fn lemma_word_len(s: Seq<char>)
    ensures
        word_len(s) <= s.len(),
        forall|i: int| 0 <= i < word_len(s) ==> !is_white_space(#[trigger] s[i]),
        word_len(s) < s.len() ==> is_white_space(s[word_len(s) as int]),
    decreases s.len(),
{
    if s.len() > 0 && !is_white_space(s[0]) {
        let t = s.skip(1);
        lemma_word_len(t);
        assert forall|i: int| 0 <= i < word_len(s) implies !is_white_space(#[trigger] s[i]) by {
            if i > 0 {
                assert(s[i] == t[i - 1]);
            }
        }
        if word_len(s) < s.len() {
            assert(s[word_len(s) as int] == t[word_len(t) as int]);
        }
    }
}

/// A prefix without white space, up to white space or the end, is the prefix that `word_len` counts.
proof fn lemma_word_len_is(s: Seq<char>, n: int)
    requires
        0 <= n <= s.len(),
        forall|i: int| 0 <= i < n ==> !is_white_space(#[trigger] s[i]),
        n < s.len() ==> is_white_space(s[n]),
    ensures
        word_len(s) == n,
{
    lemma_word_len(s);
    if word_len(s) < n {
        assert(!is_white_space(s[word_len(s) as int]));
    } else if n < word_len(s) {
        assert(is_white_space(s[n]));
    }
}

/// Each of the words of a text is a word.
pub proof fn lemma_words(s: Seq<char>)
    ensures
        forall|i: int| 0 <= i < words(s).len() ==> is_word(#[trigger] words(s)[i]),
    decreases s.len(),
{
    if s.len() > 0 {
        if is_white_space(s[0]) {
            lemma_words(s.skip(1));
            assert(words(s) == words(s.skip(1)));
        } else {
            lemma_word_len(s);
            let n = word_len(s) as int;
            let rest = s.skip(n);
            lemma_words(rest);
            assert forall|i: int| 0 <= i < words(s).len() implies is_word(
                #[trigger] words(s)[i],
            ) by {
                if i == 0 {
                    assert(words(s)[0] == s.take(n));
                } else {
                    assert(words(s)[i] == words(rest)[i - 1]);
                }
            }
        }
    } else {
        assert(words(s).len() == 0);
    }
}

pub proof fn lemma_until(s: Seq<char>, sep: char)
    ensures
        until(s, sep).len() <= s.len(),
        until(s, sep) == s.take(until(s, sep).len() as int),
        !until(s, sep).contains(sep),
        until(s, sep).len() < s.len() ==> s[until(s, sep).len() as int] == sep,
    decreases s.len(),
{
    if s.len() > 0 && s[0] != sep {
        let t = s.skip(1);
        lemma_until(t, sep);
        let u = until(t, sep);
        assert(until(s, sep) == seq![s[0]] + u);
        assert(until(s, sep) =~= s.take(until(s, sep).len() as int)) by {
            assert forall|i: int| 0 <= i < until(s, sep).len() implies until(s, sep)[i]
                == s.take(until(s, sep).len() as int)[i] by {
                if i > 0 {
                    assert(until(s, sep)[i] == u[i - 1]);
                    assert(u[i - 1] == t.take(u.len() as int)[i - 1]);
                }
            }
        }
        if until(s, sep).contains(sep) {
            let i = choose|i: int| 0 <= i < until(s, sep).len() && until(s, sep)[i] == sep;
            assert(i > 0);
            assert(u[i - 1] == sep);
        }
    } else {
        assert(until(s, sep) =~= s.take(0));
    }
}

/// The piece before the first separator, told by its length.
proof fn lemma_until_is(s: Seq<char>, sep: char, n: int)
    requires
        0 <= n <= s.len(),
        forall|i: int| 0 <= i < n ==> #[trigger] s[i] != sep,
        n < s.len() ==> s[n] == sep,
    ensures
        until(s, sep) == s.take(n),
{
    lemma_until(s, sep);
    let m = until(s, sep).len() as int;
    if m < n {
        assert(s[m] == sep);
    } else if n < m {
        assert(until(s, sep)[n] == s[n]);
        assert(until(s, sep).contains(sep));
    }
}

/// Splitting gives back what was joined, where no part holds the separator.
pub proof fn lemma_split_join(parts: Seq<Seq<char>>, sep: char)
    requires
        parts.len() > 0,
        forall|i: int| 0 <= i < parts.len() ==> !(#[trigger] parts[i]).contains(sep),
    ensures
        split_on(join(parts, sep), sep) == parts,
    decreases parts.len(),
{
    let s = join(parts, sep);
    let p = parts[0];
    assert forall|i: int| 0 <= i < p.len() implies #[trigger] s[i] != sep by {
        assert(s[i] == p[i]);
        assert(p.contains(p[i]));
    }
    lemma_until_is(s, sep, p.len() as int);
    if parts.len() == 1 {
        assert(s.take(s.len() as int) =~= s);
        assert(seq![s] =~= parts);
    } else {
        assert(s.take(p.len() as int) =~= p);
        let rest = parts.skip(1);
        assert forall|i: int| 0 <= i < rest.len() implies !(#[trigger] rest[i]).contains(sep) by {
            assert(rest[i] == parts[i + 1]);
        }
        lemma_split_join(rest, sep);
        assert(s.skip(p.len() as int + 1) =~= join(rest, sep));
        assert(seq![p] + rest =~= parts);
    }
}

/// White space parts words, and nothing else does: the words of two texts with white space
/// between them are those of the one and those of the other. A text without white space is
/// one word, and an empty text has none.
pub proof fn law_white_space_parts_words(a: Seq<char>, blank: char, b: Seq<char>)
    requires
        is_white_space(blank),
    ensures
        words(a + seq![blank] + b) == words(a) + words(b),
        (forall|i: int| 0 <= i < a.len() ==> !is_white_space(#[trigger] a[i])) ==> words(a) == if a.len()
            == 0 {
            Seq::<Seq<char>>::empty()
        } else {
            seq![a]
        },
    decreases a.len(),
{
    let s = a + seq![blank] + b;
    if a.len() == 0 {
        assert(s[0] == blank);
        assert(s.skip(1) =~= b);
        assert(words(a) + words(b) =~= words(b));
        assert(words(a) =~= seq![]);
    } else if is_white_space(a[0]) {
        law_white_space_parts_words(a.skip(1), blank, b);
        assert(s[0] == a[0]);
        assert(s.skip(1) =~= a.skip(1) + seq![blank] + b);
    } else {
        lemma_word_len(a);
        let n = word_len(a) as int;
        assert(s[0] == a[0]);
        assert forall|i: int| 0 <= i < n implies !is_white_space(#[trigger] s[i]) by {
            assert(s[i] == a[i]);
        }
        if n < a.len() {
            assert(s[n] == a[n]);
        } else {
            assert(s[n] == blank);
        }
        lemma_word_len_is(s, n);
        assert(s.take(n) =~= a.take(n));
        if n < a.len() {
            law_white_space_parts_words(a.skip(n), blank, b);
            assert(s.skip(n) =~= a.skip(n) + seq![blank] + b);
        } else {
            assert(a.skip(n) =~= seq![]);
            assert(words(a.skip(n)) =~= seq![]);
            assert(s.skip(n)[0] == blank);
            assert(s.skip(n).skip(1) =~= b);
            assert(words(s.skip(n)) == words(b));
            assert(a.take(n) =~= a);
        }
        assert(words(s) == seq![s.take(n)] + words(s.skip(n)));
        assert(words(a) == seq![a.take(n)] + words(a.skip(n)));
        assert(words(s) =~= words(a) + words(b));
        if forall|i: int| 0 <= i < a.len() ==> !is_white_space(#[trigger] a[i]) {
            lemma_word_len_is(a, a.len() as int);
            assert(words(a) =~= seq![a]);
        }
    }
}

/// What stands before the first separator is all that stands before it, and all of the text
/// where there is no separator.
pub proof fn law_until_stops_at_the_first_separator(a: Seq<char>, sep: char, b: Seq<char>)
    requires
        !a.contains(sep),
    ensures
        until(a + seq![sep] + b, sep) == a,
        until(a, sep) == a,
{
    let s = a + seq![sep] + b;
    assert forall|i: int| 0 <= i < a.len() implies #[trigger] s[i] != sep by {
        assert(s[i] == a[i]);
        assert(a.contains(a[i]));
    }
    assert(s[a.len() as int] == sep);
    lemma_until_is(s, sep, a.len() as int);
    assert(s.take(a.len() as int) =~= a);
    assert forall|i: int| 0 <= i < a.len() implies #[trigger] a[i] != sep by {
        assert(a.contains(a[i]));
    }
    lemma_until_is(a, sep, a.len() as int);
    assert(a.take(a.len() as int) =~= a);
}

/// What stands behind a pattern is found by its first occurrence: where the pattern stands
/// at `n` and nowhere earlier, it is the rest behind it; where it stands nowhere, there is
/// nothing.
pub proof fn law_first_occurrence_counts(s: Seq<char>, pat: Seq<char>, n: int)
    requires
        0 <= n <= s.len(),
        forall|k: int| 0 <= k < n ==> !pat.is_prefix_of(#[trigger] s.skip(k)),
    ensures
        pat.is_prefix_of(s.skip(n)) ==> after_first(s, pat) == Some(s.skip(n + pat.len())),
        n == s.len() && !pat.is_prefix_of(s.skip(n)) ==> after_first(s, pat) is None,
    decreases n,
{
    assert(s.skip(0) =~= s);
    if n == 0 {
    } else {
        let t = s.skip(1);
        assert(!pat.is_prefix_of(s.skip(0)));
        assert forall|k: int| 0 <= k < n - 1 implies !pat.is_prefix_of(#[trigger] t.skip(k)) by {
            assert(t.skip(k) =~= s.skip(k + 1));
        }
        law_first_occurrence_counts(t, pat, n - 1);
        assert(t.skip(n - 1) =~= s.skip(n));
        if pat.is_prefix_of(s.skip(n)) {
            assert(pat.len() <= s.skip(n).len());
            assert(t.skip(n - 1 + pat.len()) =~= s.skip(n + pat.len()));
        }
    }
}

/// A text is split at each separator, and nowhere else; and joining the pieces gives it
/// back.
pub proof fn law_text_is_split_at_separators(a: Seq<char>, sep: char, b: Seq<char>)
    requires
        !a.contains(sep),
    ensures
        split_on(a, sep) == seq![a],
        split_on(a + seq![sep] + b, sep) == seq![a] + split_on(b, sep),
        join(split_on(b, sep), sep) == b,
    decreases b.len(),
{
    let s = a + seq![sep] + b;
    law_until_stops_at_the_first_separator(a, sep, b);
    assert(s.skip(a.len() as int + 1) =~= b);
    assert(split_on(a, sep) =~= seq![a]);
    let head = until(b, sep);
    lemma_until(b, sep);
    if head.len() < b.len() {
        let rest = b.skip(head.len() as int + 1);
        law_text_is_split_at_separators(head, sep, rest);
        let pieces = split_on(b, sep);
        assert(pieces =~= seq![head] + split_on(rest, sep));
        assert(split_on(rest, sep).len() > 0);
        assert(pieces.skip(1) =~= split_on(rest, sep));
        assert(pieces[0] == head);
        assert(join(pieces, sep) =~= b);
    }
}

/// The characters of `s`.
pub fn chars_of(s: &str) -> (r: Vec<char>)
    ensures
        r@ == s@,
{
    let mut r: Vec<char> = Vec::new();
    for c in it: s.chars()
        invariant
            r@ == it.seq().take(it.index() as int),
            it.seq() == s@,
    {
        r.push(c);
    }
    assert(s@.take(s@.len() as int) =~= s@);
    r
}

/// Whether `c` has the Unicode property White_Space.
pub fn char_is_white_space(c: char) -> (r: bool)
    ensures
        r == is_white_space(c),
{
    let n: u32 = c as u32;
    (0x09 <= n && n <= 0x0d) || n == 0x20 || n == 0x85 || n == 0xa0 || n == 0x1680 || (0x2000 <= n
        && n <= 0x200a) || n == 0x2028 || n == 0x2029 || n == 0x202f || n == 0x205f || n == 0x3000
}

/// Whether two texts are the same.
pub fn str_eq(a: &str, b: &str) -> (r: bool)
    ensures
        r == (a@ == b@),
{
    let x = chars_of(a);
    let y = chars_of(b);
    if x.len() != y.len() {
        return false;
    }
    let mut i: usize = 0;
    while i < x.len()
        invariant
            i <= x.len(),
            x@ == a@,
            y@ == b@,
            x.len() == y.len(),
            forall|j: int| 0 <= j < i ==> x@[j] == y@[j],
        decreases x.len() - i,
    {
        if x[i] != y[i] {
            return false;
        }
        i = i + 1;
    }
    assert(a@ =~= b@);
    true
}

/// The words of `s`, in order.
pub fn split_whitespace<'a>(s: &'a str) -> (r: Vec<&'a str>)
    ensures
        r.deep_view() == words(s@),
{
    let cs = chars_of(s);
    let mut r: Vec<&'a str> = Vec::new();
    let mut i: usize = 0;
    assert(r.deep_view() =~= seq![]);
    assert(cs@.skip(0) =~= cs@);
    assert(r.deep_view() + words(cs@.skip(0)) =~= words(s@));
    while i < cs.len()
        invariant
            i <= cs.len(),
            cs@ == s@,
            r.deep_view() + words(cs@.skip(i as int)) == words(s@),
        decreases cs.len() - i,
    {
        let ghost rest = cs@.skip(i as int);
        if char_is_white_space(cs[i]) {
            assert(rest.skip(1) =~= cs@.skip(i + 1));
            i = i + 1;
        } else {
            let start: usize = i;
            while i < cs.len() && !char_is_white_space(cs[i])
                invariant
                    start <= i <= cs.len(),
                    rest == cs@.skip(start as int),
                    forall|j: int| 0 <= j < i - start ==> !is_white_space(#[trigger] rest[j]),
                decreases cs.len() - i,
            {
                assert(rest[i - start] == cs@[i as int]);
                i = i + 1;
            }
            proof {
                if i < cs.len() {
                    assert(rest[i - start] == cs@[i as int]);
                }
                lemma_word_len_is(rest, i - start);
                assert(rest.take(i - start) =~= s@.subrange(start as int, i as int));
                assert(rest.skip(i - start) =~= cs@.skip(i as int));
                assert(words(rest) == seq![rest.take(i - start)] + words(rest.skip(i - start)));
            }
            let ghost before = r.deep_view();
            r.push(s.substring_char(start, i));
            proof {
                assert(r.deep_view() =~= before.push(rest.take(i - start)));
                assert(before + words(rest) =~= r.deep_view() + words(cs@.skip(i as int)));
            }
        }
    }
    assert(words(cs@.skip(i as int)) =~= seq![]);
    assert(r.deep_view() + words(cs@.skip(i as int)) =~= r.deep_view());
    r
}

/// What stands behind the first `pat` in `s`, if `pat` occurs in it.
pub fn split_once<'a>(s: &'a str, pat: &str) -> (r: Option<&'a str>)
    ensures
        match r {
            Some(rest) => after_first(s@, pat@) == Some(rest@),
            None => after_first(s@, pat@) is None,
        },
{
    let cs = chars_of(s);
    let ps = chars_of(pat);
    let mut i: usize = 0;
    assert(cs@.skip(0) =~= cs@);
    loop
        invariant
            i <= cs.len(),
            cs@ == s@,
            ps@ == pat@,
            after_first(s@, pat@) == after_first(cs@.skip(i as int), pat@),
        decreases cs.len() - i,
    {
        let ghost rest = cs@.skip(i as int);
        if ps.len() <= cs.len() - i {
            let mut k: usize = 0;
            while k < ps.len() && cs[i + k] == ps[k]
                invariant
                    k <= ps.len() <= cs.len() - i,
                    i <= cs.len(),
                    forall|j: int| 0 <= j < k ==> cs@[i + j] == ps@[j],
                decreases ps.len() - k,
            {
                k = k + 1;
            }
            if k == ps.len() {
                assert(pat@.is_prefix_of(rest)) by {
                    assert(pat@ =~= rest.take(pat@.len() as int));
                }
                assert(rest.skip(pat@.len() as int) =~= s@.subrange(i + k, s@.len() as int));
                return Some(s.substring_char(i + k, cs.len()));
            }
            assert(!pat@.is_prefix_of(rest)) by {
                assert(rest[k as int] != pat@[k as int]);
            }
        }
        if i == cs.len() {
            return None;
        }
        assert(rest.skip(1) =~= cs@.skip(i + 1));
        i = i + 1;
    }
}

/// What stands before the first `sep` in `s`; all of `s` where there is none.
pub fn before<'a>(s: &'a str, sep: char) -> (r: &'a str)
    ensures
        r@ == until(s@, sep),
{
    let cs = chars_of(s);
    let mut i: usize = 0;
    while i < cs.len() && cs[i] != sep
        invariant
            i <= cs.len(),
            cs@ == s@,
            forall|j: int| 0 <= j < i ==> #[trigger] s@[j] != sep,
        decreases cs.len() - i,
    {
        i = i + 1;
    }
    proof {
        lemma_until_is(s@, sep, i as int);
    }
    s.substring_char(0, i)
}

/// The pieces of `s` between the separators `sep`, in order.
pub fn split<'a>(s: &'a str, sep: char) -> (r: Vec<&'a str>)
    ensures
        r.deep_view() == split_on(s@, sep),
{
    let cs = chars_of(s);
    let mut r: Vec<&'a str> = Vec::new();
    let mut start: usize = 0;
    let mut i: usize = 0;
    assert(cs@.skip(0) =~= cs@);
    assert(r.deep_view() + split_on(cs@.skip(0), sep) =~= split_on(s@, sep));
    while i < cs.len()
        invariant
            start <= i <= cs.len(),
            cs@ == s@,
            forall|j: int| 0 <= j < i - start ==> #[trigger] cs@.skip(start as int)[j] != sep,
            r.deep_view() + split_on(cs@.skip(start as int), sep) == split_on(s@, sep),
        decreases cs.len() - i,
    {
        let ghost rest = cs@.skip(start as int);
        assert(rest[i - start] == cs@[i as int]);
        if cs[i] == sep {
            let ghost prior = r.deep_view();
            let ghost piece = rest.take(i - start);
            proof {
                lemma_until_is(rest, sep, i - start);
                assert(rest.take(i - start) =~= s@.subrange(start as int, i as int));
                assert(rest.skip(i - start + 1) =~= cs@.skip(i + 1));
            }
            r.push(s.substring_char(start, i));
            start = i + 1;
            proof {
                assert(r.deep_view() =~= prior.push(piece));
                assert(prior + split_on(rest, sep) =~= r.deep_view() + split_on(
                    cs@.skip(start as int),
                    sep,
                ));
            }
        }
        i = i + 1;
    }
    proof {
        let rest = cs@.skip(start as int);
        lemma_until_is(rest, sep, i - start);
        assert(rest.take(i - start) =~= rest);
        assert(split_on(rest, sep) =~= seq![rest]);
        assert(rest =~= s@.subrange(start as int, i as int));
    }
    let ghost prior = r.deep_view();
    r.push(s.substring_char(start, i));
    proof {
        assert(r.deep_view() =~= prior.push(cs@.skip(start as int)));
        assert(r.deep_view() =~= prior + split_on(cs@.skip(start as int), sep));
    }
    r
}

/// `parts` one after the other, with a single space between two of them.
pub fn join_with_spaces(parts: &Vec<String>) -> (r: String)
    ensures
        r@ == join(parts.deep_view(), ' '),
{
    let ghost p = parts.deep_view();
    let mut r = String::new();
    let mut i: usize = 0;
    assert(p.skip(0) =~= p);
    while i < parts.len()
        invariant
            i <= parts.len(),
            p == parts.deep_view(),
            p.len() == parts.len(),
            join(p, ' ') == r@ + if i == 0 {
                join(p, ' ')
            } else if i < p.len() {
                seq![' '] + join(p.skip(i as int), ' ')
            } else {
                seq![]
            },
        decreases parts.len() - i,
    {
        let ghost prior = r@;
        if i > 0 {
            r.append(" ");
        }
        r.append(parts[i].as_str());
        proof {
            reveal_strlit(" ");
            assert(" "@ =~= seq![' ']);
            let rest = p.skip(i as int);
            assert(rest[0] == p[i as int]);
            assert(rest.skip(1) =~= p.skip(i + 1));
            assert(p.skip(0) =~= p);
            if i == 0 {
                assert(r@ =~= rest[0]);
            } else {
                assert(r@ =~= prior + seq![' '] + rest[0]);
            }
            if i + 1 < p.len() {
                assert(join(rest, ' ') == rest[0] + seq![' '] + join(p.skip(i + 1), ' '));
                assert(join(p, ' ') =~= r@ + (seq![' '] + join(p.skip(i + 1), ' ')));
            } else {
                assert(join(rest, ' ') == rest[0]);
                assert(join(p, ' ') =~= r@ + seq![]);
            }
        }
        i = i + 1;
    }
    assert(join(p, ' ') =~= r@);
    r
}

} // verus!
