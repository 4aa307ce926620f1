//! Texts that are spelled alike: they differ in the case of ASCII letters and in the
//! length of runs of white space, and in nothing else.
use crate::sqltype::{
    last_index_of, lemma_white_from, lemma_white_shift, white_from, words_of,
};
use crate::text::{
    index_from, is_lower, is_upper, is_white, join_of, split_of, trim_end_of, trim_of, trim_start_of,
    upper, upper_char,
};
use vstd::prelude::*;

verus! {

/// The two texts differ at most in the case of ASCII letters, and in how long their runs
/// of white space are.
pub open spec fn alike(a: Seq<char>, b: Seq<char>) -> bool
    decreases a.len(),
{
    if a.len() == 0 || b.len() == 0 {
        a.len() == 0 && b.len() == 0
    } else if is_white(a[0]) {
        proof {
            lemma_trim_start(a);
        }
        is_white(b[0]) && alike(trim_start_of(a), trim_start_of(b))
    } else {
        upper_char(a[0]) == upper_char(b[0]) && alike(a.drop_first(), b.drop_first())
    }
}

/// A character that stands for itself alone: no letter, and no white space.
pub open spec fn is_mark(c: char) -> bool {
    !is_white(c) && !is_lower(c) && !is_upper(c)
}

/// The text does not hold the character.
pub open spec fn lacks(s: Seq<char>, c: char) -> bool {
    forall|i: int| 0 <= i < s.len() ==> #[trigger] s[i] != c
}

/// The text holds nothing but white space.
pub open spec fn is_blank(s: Seq<char>) -> bool {
    forall|i: int| 0 <= i < s.len() ==> is_white(#[trigger] s[i])
}

// ---------------------------------------------------------------------------
// White space at the ends
// ---------------------------------------------------------------------------

/// How much white space is taken from the front.
pub proof fn lemma_trim_start(s: Seq<char>) -> (p: int)
    ensures
        0 <= p <= s.len(),
        trim_start_of(s) == s.skip(p),
        is_blank(s.take(p)),
        p < s.len() ==> !is_white(s[p]),
        s.len() > 0 && is_white(s[0]) ==> p > 0,
    decreases s.len(),
{
    if s.len() > 0 && is_white(s[0]) {
        let q = lemma_trim_start(s.drop_first());
        assert(s.drop_first().skip(q) =~= s.skip(q + 1));
        assert forall|i: int| 0 <= i < q + 1 implies is_white(#[trigger] s.take(q + 1)[i]) by {
            if i > 0 {
                assert(s.drop_first().take(q)[i - 1] == s[i]);
            }
        }
        q + 1
    } else {
        assert(s.skip(0) =~= s);
        0
    }
}

pub(crate) proof fn lemma_trim_start_is(s: Seq<char>, p: int)
    requires
        0 <= p <= s.len(),
        is_blank(s.take(p)),
        p < s.len() ==> !is_white(s[p]),
    ensures
        trim_start_of(s) == s.skip(p),
{
    let q = lemma_trim_start(s);
    if q < p {
        assert(s.take(p)[q] == s[q]);
    }
    if p < q {
        assert(s.take(q)[p] == s[p]);
    }
}

/// How much is left when the white space is taken from the end.
pub(crate) proof fn lemma_trim_end(s: Seq<char>) -> (p: int)
    ensures
        0 <= p <= s.len(),
        trim_end_of(s) == s.take(p),
        is_blank(s.skip(p)),
        p > 0 ==> !is_white(s[p - 1]),
    decreases s.len(),
{
    if s.len() > 0 && is_white(s.last()) {
        let front = s.drop_last();
        let p = lemma_trim_end(front);
        assert(front.take(p) =~= s.take(p));
        assert forall|i: int| 0 <= i < s.len() - p implies is_white(#[trigger] s.skip(p)[i]) by {
            if i < front.len() - p {
                assert(front.skip(p)[i] == s[p + i]);
            }
        }
        p
    } else {
        assert(s.take(s.len() as int) =~= s);
        s.len() as int
    }
}

pub(crate) proof fn lemma_trim_end_is(s: Seq<char>, p: int)
    requires
        0 <= p <= s.len(),
        is_blank(s.skip(p)),
        p > 0 ==> !is_white(s[p - 1]),
    ensures
        trim_end_of(s) == s.take(p),
{
    let q = lemma_trim_end(s);
    if q < p {
        assert(s.skip(q)[p - 1 - q] == s[p - 1]);
    }
    if p < q {
        assert(s.skip(p)[q - 1 - p] == s[q - 1]);
    }
}

// ---------------------------------------------------------------------------
// Places that correspond
// ---------------------------------------------------------------------------

proof fn lemma_upper_white(c: char)
    ensures
        is_white(upper_char(c)) == is_white(c),
{
}

pub(crate) proof fn lemma_alike_symmetric(a: Seq<char>, b: Seq<char>)
    requires
        alike(a, b),
    ensures
        alike(b, a),
    decreases a.len(),
{
    if a.len() > 0 {
        lemma_upper_white(a[0]);
        lemma_upper_white(b[0]);
        if is_white(a[0]) {
            lemma_trim_start(a);
            lemma_alike_symmetric(trim_start_of(a), trim_start_of(b));
        } else {
            lemma_alike_symmetric(a.drop_first(), b.drop_first());
        }
    }
}

/// Every visible character of one text has its counterpart in the other, and what stands
/// before and behind the two is alike.
pub(crate) proof fn lemma_alike_at(a: Seq<char>, b: Seq<char>, i: int) -> (j: int)
    requires
        alike(a, b),
        0 <= i < a.len(),
        !is_white(a[i]),
    ensures
        0 <= j < b.len(),
        upper_char(a[i]) == upper_char(b[j]),
        !is_white(b[j]),
        alike(a.take(i), b.take(j)),
        alike(a.skip(i + 1), b.skip(j + 1)),
    decreases a.len(),
{
    if is_white(a[0]) {
        let p = lemma_trim_start(a);
        let q = lemma_trim_start(b);
        let a2 = trim_start_of(a);
        let b2 = trim_start_of(b);
        if i < p {
            assert(a.take(p)[i] == a[i]);
        }
        let j2 = lemma_alike_at(a2, b2, i - p);
        let j = j2 + q;
        let x = a.take(i);
        let y = b.take(j);
        assert(x.take(p) =~= a.take(p));
        assert(y.take(q) =~= b.take(q));
        lemma_trim_start_is(x, p);
        if q < y.len() {
            assert(y[q] == b[q]);
        }
        lemma_trim_start_is(y, q);
        assert(x.skip(p) =~= a2.take(i - p));
        assert(y.skip(q) =~= b2.take(j2));
        assert(x[0] == a[0]);
        assert(y[0] == b[0]);
        assert(a.skip(i + 1) =~= a2.skip(i - p + 1));
        assert(b.skip(j + 1) =~= b2.skip(j2 + 1));
        j
    } else if i == 0 {
        lemma_upper_white(a[0]);
        lemma_upper_white(b[0]);
        assert(a.skip(1) =~= a.drop_first());
        assert(b.skip(1) =~= b.drop_first());
        assert(a.take(0).len() == 0);
        assert(b.take(0).len() == 0);
        0
    } else {
        let a2 = a.drop_first();
        let b2 = b.drop_first();
        let j2 = lemma_alike_at(a2, b2, i - 1);
        let j = j2 + 1;
        let x = a.take(i);
        let y = b.take(j);
        assert(x[0] == a[0] && y[0] == b[0]);
        assert(x.drop_first() =~= a2.take(i - 1));
        assert(y.drop_first() =~= b2.take(j2));
        assert(a.skip(i + 1) =~= a2.skip(i));
        assert(b.skip(j + 1) =~= b2.skip(j2 + 1));
        j
    }
}

proof fn lemma_alike_push(a: Seq<char>, b: Seq<char>, c: char, d: char)
    requires
        alike(a, b),
        !is_white(c),
        upper_char(c) == upper_char(d),
    ensures
        alike(a.push(c), b.push(d)),
    decreases a.len(),
{
    let x = a.push(c);
    let y = b.push(d);
    lemma_upper_white(c);
    lemma_upper_white(d);
    if a.len() == 0 {
        assert(x.drop_first().len() == 0);
        assert(y.drop_first().len() == 0);
        assert(alike(x.drop_first(), y.drop_first()));
    } else if is_white(a[0]) {
        let p = lemma_trim_start(a);
        let q = lemma_trim_start(b);
        assert(x.take(p) =~= a.take(p));
        assert(y.take(q) =~= b.take(q));
        lemma_trim_start_is(x, p);
        lemma_trim_start_is(y, q);
        lemma_alike_push(a.skip(p), b.skip(q), c, d);
        assert(x.skip(p) =~= a.skip(p).push(c));
        assert(y.skip(q) =~= b.skip(q).push(d));
    } else {
        lemma_alike_push(a.drop_first(), b.drop_first(), c, d);
        assert(x.drop_first() =~= a.drop_first().push(c));
        assert(y.drop_first() =~= b.drop_first().push(d));
    }
}

proof fn lemma_mark(c: char, x: char)
    requires
        is_mark(c),
        upper_char(x) == upper_char(c),
    ensures
        x == c,
{
}

/// A mark that one text lacks the other lacks too.
pub(crate) proof fn lemma_alike_lacks(a: Seq<char>, b: Seq<char>, c: char)
    requires
        alike(a, b),
        is_mark(c),
        lacks(a, c),
    ensures
        lacks(b, c),
{
    assert forall|i: int| 0 <= i < b.len() implies #[trigger] b[i] != c by {
        if b[i] == c {
            lemma_alike_symmetric(a, b);
            let j = lemma_alike_at(b, a, i);
            lemma_mark(c, a[j]);
            assert(a[j] == c);
        }
    }
}

proof fn lemma_alike_blank(a: Seq<char>, b: Seq<char>)
    requires
        alike(a, b),
        is_blank(a),
    ensures
        is_blank(b),
{
    assert forall|i: int| 0 <= i < b.len() implies is_white(#[trigger] b[i]) by {
        if !is_white(b[i]) {
            lemma_alike_symmetric(a, b);
            let j = lemma_alike_at(b, a, i);
            assert(is_white(a[j]));
        }
    }
}

/// Texts that are alike stay so when they are trimmed.
pub(crate) proof fn lemma_alike_trim(a: Seq<char>, b: Seq<char>)
    requires
        alike(a, b),
    ensures
        alike(trim_of(a), trim_of(b)),
{
    let x = trim_start_of(a);
    let y = trim_start_of(b);
    assert(alike(x, y)) by {
        if a.len() > 0 {
            lemma_upper_white(a[0]);
            lemma_upper_white(b[0]);
        }
    }
    let p = lemma_trim_end(x);
    let q = lemma_trim_end(y);
    if p == 0 {
        assert(x.skip(0) =~= x);
        lemma_alike_blank(x, y);
        if q > 0 {
            assert(is_white(y[q - 1]));
        }
        assert(x.take(0).len() == 0 && y.take(0).len() == 0);
    } else {
        let j = lemma_alike_at(x, y, p - 1);
        lemma_alike_blank(x.skip(p), y.skip(j + 1));
        lemma_trim_end_is(y, j + 1);
        lemma_alike_push(x.take(p - 1), y.take(j), x[p - 1], y[j]);
        assert(x.take(p) =~= x.take(p - 1).push(x[p - 1]));
        assert(y.take(j + 1) =~= y.take(j).push(y[j]));
    }
}

/// A text of marks is alike to itself only.
pub(crate) proof fn lemma_alike_exact(a: Seq<char>, b: Seq<char>)
    requires
        alike(a, b),
        forall|i: int| 0 <= i < a.len() ==> is_mark(#[trigger] a[i]),
    ensures
        a == b,
    decreases a.len(),
{
    if a.len() > 0 {
        assert(is_mark(a[0]));
        lemma_mark(a[0], b[0]);
        assert forall|i: int| 0 <= i < a.drop_first().len() implies is_mark(
            #[trigger] a.drop_first()[i],
        ) by {
            assert(is_mark(a[i + 1]));
        }
        lemma_alike_exact(a.drop_first(), b.drop_first());
        assert(a =~= seq![a[0]] + a.drop_first());
        assert(b =~= seq![b[0]] + b.drop_first());
    } else {
        assert(a =~= b);
    }
}

// ---------------------------------------------------------------------------
// First and last places of a character
// ---------------------------------------------------------------------------

pub(crate) proof fn lemma_index(s: Seq<char>, c: char, from: int)
    requires
        0 <= from <= s.len(),
    ensures
        from <= index_from(s, c, from) <= s.len(),
        index_from(s, c, from) < s.len() ==> s[index_from(s, c, from)] == c,
        forall|i: int| from <= i < index_from(s, c, from) ==> #[trigger] s[i] != c,
    decreases s.len() - from,
{
    if from < s.len() && s[from] != c {
        lemma_index(s, c, from + 1);
    }
}

pub(crate) proof fn lemma_index_is(s: Seq<char>, c: char, k: int)
    requires
        0 <= k <= s.len(),
        k < s.len() ==> s[k] == c,
        lacks(s.take(k), c),
    ensures
        index_from(s, c, 0) == k,
{
    lemma_index(s, c, 0);
    let r = index_from(s, c, 0);
    if r < k {
        assert(s.take(k)[r] == s[r]);
    }
}

pub(crate) proof fn lemma_last_index(s: Seq<char>, c: char)
    ensures
        -1 <= last_index_of(s, c) < s.len(),
        last_index_of(s, c) >= 0 ==> s[last_index_of(s, c)] == c,
        lacks(s.skip(last_index_of(s, c) + 1), c),
    decreases s.len(),
{
    if s.len() > 0 && s.last() != c {
        lemma_last_index(s.drop_last(), c);
        let k = last_index_of(s, c);
        assert forall|i: int| 0 <= i < s.skip(k + 1).len() implies #[trigger] s.skip(k + 1)[i] != c by {
            if k + 1 + i < s.len() - 1 {
                assert(s.drop_last().skip(k + 1)[i] == s[k + 1 + i]);
            }
        }
    }
}

pub(crate) proof fn lemma_last_index_is(s: Seq<char>, c: char, k: int)
    requires
        0 <= k < s.len(),
        s[k] == c,
        lacks(s.skip(k + 1), c),
    ensures
        last_index_of(s, c) == k,
{
    lemma_last_index(s, c);
    let r = last_index_of(s, c);
    if r < k {
        assert(s.skip(r + 1)[k - r - 1] == s[k]);
    }
    if r > k {
        assert(s.skip(k + 1)[r - k - 1] == s[r]);
    }
}

/// Texts that are alike have as many pieces, and the pieces are alike.
pub(crate) proof fn lemma_alike_split(a: Seq<char>, b: Seq<char>, c: char)
    requires
        alike(a, b),
        is_mark(c),
    ensures
        split_of(a, c).len() == split_of(b, c).len(),
        forall|k: int| 0 <= k < split_of(a, c).len() ==> alike(#[trigger] split_of(a, c)[k], split_of(b, c)[k]),
    decreases a.len(),
{
    lemma_index(a, c, 0);
    let i = index_from(a, c, 0);
    if i < a.len() {
        let j = lemma_alike_at(a, b, i);
        lemma_mark(c, b[j]);
        assert(lacks(a.take(i), c));
        lemma_alike_lacks(a.take(i), b.take(j), c);
        lemma_index_is(b, c, j);
        lemma_alike_split(a.skip(i + 1), b.skip(j + 1), c);
        let ra = split_of(a.skip(i + 1), c);
        let rb = split_of(b.skip(j + 1), c);
        assert(split_of(a, c) == seq![a.take(i)] + ra);
        assert(split_of(b, c) == seq![b.take(j)] + rb);
        assert forall|k: int| 0 <= k < split_of(a, c).len() implies alike(
            #[trigger] split_of(a, c)[k],
            split_of(b, c)[k],
        ) by {
            if k > 0 {
                assert(alike(ra[k - 1], rb[k - 1]));
            }
        }
    } else {
        assert(lacks(a, c));
        lemma_alike_lacks(a, b, c);
        assert(b.take(b.len() as int) =~= b);
        lemma_index_is(b, c, b.len() as int);
    }
}

// ---------------------------------------------------------------------------
// Words
// ---------------------------------------------------------------------------

proof fn lemma_white_concat(x: Seq<char>, y: Seq<char>, from: int)
    requires
        0 <= from <= x.len(),
        y.len() == 0 || is_white(y[0]),
    ensures
        white_from(x + y, from) == white_from(x, from),
    decreases x.len() - from,
{
    if from < x.len() {
        assert((x + y)[from] == x[from]);
        if !is_white(x[from]) {
            lemma_white_concat(x, y, from + 1);
        }
    } else if y.len() > 0 {
        assert((x + y)[from] == y[0]);
    }
}

/// The words of a text and of what follows it, where white space separates the two.
pub(crate) proof fn lemma_words_concat(x: Seq<char>, y: Seq<char>)
    requires
        y.len() == 0 || is_white(y[0]),
    ensures
        words_of(x + y) == words_of(x) + words_of(y),
    decreases x.len(),
{
    if x.len() == 0 {
        assert(x + y =~= y);
        assert(words_of(x) + words_of(y) =~= words_of(y));
    } else if is_white(x[0]) {
        assert((x + y)[0] == x[0]);
        assert((x + y).drop_first() =~= x.drop_first() + y);
        lemma_words_concat(x.drop_first(), y);
    } else {
        assert((x + y)[0] == x[0]);
        lemma_white_concat(x, y, 0);
        lemma_white_from(x, 0);
        let k = white_from(x, 0);
        assert((x + y).take(k) =~= x.take(k));
        assert((x + y).skip(k) =~= x.skip(k) + y);
        lemma_words_concat(x.skip(k), y);
        assert(seq![x.take(k)] + (words_of(x.skip(k)) + words_of(y)) =~= seq![x.take(k)] + words_of(
            x.skip(k),
        ) + words_of(y));
    }
}

pub(crate) proof fn lemma_words_blank(s: Seq<char>)
    requires
        is_blank(s),
    ensures
        words_of(s) == Seq::<Seq<char>>::empty(),
    decreases s.len(),
{
    if s.len() > 0 {
        assert(is_white(s[0]));
        assert forall|i: int| 0 <= i < s.drop_first().len() implies is_white(
            #[trigger] s.drop_first()[i],
        ) by {
            assert(is_white(s[i + 1]));
        }
        lemma_words_blank(s.drop_first());
    }
}

pub(crate) proof fn lemma_words_trim_start(s: Seq<char>)
    ensures
        words_of(trim_start_of(s)) == words_of(s),
    decreases s.len(),
{
    if s.len() > 0 && is_white(s[0]) {
        lemma_words_trim_start(s.drop_first());
    }
}

pub(crate) proof fn lemma_words_trim_end(s: Seq<char>)
    ensures
        words_of(trim_end_of(s)) == words_of(s),
{
    let p = lemma_trim_end(s);
    assert(s =~= s.take(p) + s.skip(p));
    if p < s.len() {
        assert(is_white(s.skip(p)[0]));
    }
    lemma_words_concat(s.take(p), s.skip(p));
    lemma_words_blank(s.skip(p));
    assert(words_of(s.take(p)) + Seq::<Seq<char>>::empty() =~= words_of(s.take(p)));
}

/// Trimming leaves the words.
pub(crate) proof fn lemma_words_trim(s: Seq<char>)
    ensures
        words_of(trim_of(s)) == words_of(s),
{
    lemma_words_trim_start(s);
    lemma_words_trim_end(trim_start_of(s));
}

/// The texts have the same words, up to the case of letters.
pub open spec fn same_words(a: Seq<Seq<char>>, b: Seq<Seq<char>>) -> bool {
    &&& a.len() == b.len()
    &&& forall|k: int| 0 <= k < a.len() ==> upper(#[trigger] a[k]) == upper(b[k])
}

proof fn lemma_alike_word(a: Seq<char>, b: Seq<char>)
    requires
        alike(a, b),
    ensures
        white_from(a, 0) == white_from(b, 0),
        0 <= white_from(a, 0) <= a.len(),
        white_from(a, 0) <= b.len(),
        upper(a.take(white_from(a, 0))) == upper(b.take(white_from(a, 0))),
        alike(a.skip(white_from(a, 0)), b.skip(white_from(a, 0))),
    decreases a.len(),
{
    if a.len() > 0 {
        lemma_upper_white(a[0]);
        lemma_upper_white(b[0]);
    }
    if a.len() == 0 || is_white(a[0]) {
        assert(a.skip(0) =~= a);
        assert(b.skip(0) =~= b);
        assert(upper(a.take(0)) =~= upper(b.take(0)));
    } else {
        let a2 = a.drop_first();
        let b2 = b.drop_first();
        lemma_alike_word(a2, b2);
        lemma_white_shift(a, 1, 1);
        lemma_white_shift(b, 1, 1);
        assert(a.skip(1) =~= a2);
        assert(b.skip(1) =~= b2);
        let k = white_from(a, 0);
        assert(a.skip(k) =~= a2.skip(k - 1));
        assert(b.skip(k) =~= b2.skip(k - 1));
        assert forall|i: int| 0 <= i < k implies upper(a.take(k))[i] == upper(b.take(k))[i] by {
            if i > 0 {
                assert(upper(a2.take(k - 1))[i - 1] == upper(b2.take(k - 1))[i - 1]);
            }
        }
        assert(upper(a.take(k)) =~= upper(b.take(k)));
    }
}

/// Texts that are alike have the same words, up to the case of letters.
pub(crate) proof fn lemma_alike_words(a: Seq<char>, b: Seq<char>)
    requires
        alike(a, b),
    ensures
        same_words(words_of(a), words_of(b)),
    decreases a.len(),
{
    if a.len() > 0 {
        lemma_upper_white(a[0]);
        lemma_upper_white(b[0]);
        if is_white(a[0]) {
            lemma_trim_start(a);
            lemma_alike_words(trim_start_of(a), trim_start_of(b));
            lemma_words_trim_start(a);
            lemma_words_trim_start(b);
        } else {
            lemma_alike_word(a, b);
            lemma_white_from(a, 0);
            lemma_white_from(b, 0);
            let k = white_from(a, 0);
            lemma_alike_words(a.skip(k), b.skip(k));
            let ra = words_of(a.skip(k));
            let rb = words_of(b.skip(k));
            assert(words_of(a) == seq![a.take(k)] + ra);
            assert(words_of(b) == seq![b.take(k)] + rb);
            lemma_same_words_concat(seq![a.take(k)], seq![b.take(k)], ra, rb);
        }
    }
}

pub(crate) proof fn lemma_same_words_concat(
    a: Seq<Seq<char>>,
    b: Seq<Seq<char>>,
    c: Seq<Seq<char>>,
    d: Seq<Seq<char>>,
)
    requires
        same_words(a, b),
        same_words(c, d),
    ensures
        same_words(a + c, b + d),
{
    assert forall|k: int| 0 <= k < (a + c).len() implies upper(#[trigger] (a + c)[k]) == upper(
        (b + d)[k],
    ) by {
        if k < a.len() {
            assert(upper(a[k]) == upper(b[k]));
        } else {
            assert(upper(c[k - a.len()]) == upper(d[k - a.len()]));
        }
    }
}

proof fn lemma_upper_concat(x: Seq<char>, y: Seq<char>)
    ensures
        upper(x + y) == upper(x) + upper(y),
{
    assert(upper(x + y) =~= upper(x) + upper(y));
}

/// The same words joined are the same text, up to the case of letters.
pub(crate) proof fn lemma_upper_join(a: Seq<Seq<char>>, b: Seq<Seq<char>>, sep: Seq<char>)
    requires
        same_words(a, b),
    ensures
        upper(join_of(a, sep)) == upper(join_of(b, sep)),
    decreases a.len(),
{
    if a.len() == 1 {
        assert(upper(a[0]) == upper(b[0]));
    } else if a.len() > 1 {
        let fa = a.drop_last();
        let fb = b.drop_last();
        assert forall|k: int| 0 <= k < fa.len() implies upper(#[trigger] fa[k]) == upper(fb[k]) by {
            assert(upper(a[k]) == upper(b[k]));
        }
        lemma_upper_join(fa, fb, sep);
        assert(upper(a[a.len() - 1]) == upper(b[b.len() - 1]));
        lemma_upper_concat(join_of(fa, sep) + sep, a.last());
        lemma_upper_concat(join_of(fb, sep) + sep, b.last());
        lemma_upper_concat(join_of(fa, sep), sep);
        lemma_upper_concat(join_of(fb, sep), sep);
    }
}

} // verus!
