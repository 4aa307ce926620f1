//! Text primitives: character classes, trimming, searching, splitting, joining
//! and number rendering, each stated over the sequence of a text's characters.
use crate::model::views;
use crate::spelling::{
    is_blank, lacks, lemma_index, lemma_index_is, lemma_trim_end, lemma_trim_end_is,
    lemma_trim_start, lemma_trim_start_is,
};
use crate::sqltype::number_of;
use vstd::prelude::*;

verus! {

/// `std::string::String::push`: appends the given `char` to the end of the string.
pub assume_specification[ String::push ](s: &mut String, c: char)
    ensures
        final(s)@ == old(s)@.push(c),
;

// ---------------------------------------------------------------------------
// Character classes
// ---------------------------------------------------------------------------

pub open spec fn is_lower(c: char) -> bool {
    'a' <= c <= 'z'
}

pub open spec fn is_upper(c: char) -> bool {
    'A' <= c <= 'Z'
}

pub open spec fn is_digit(c: char) -> bool {
    '0' <= c <= '9'
}

pub open spec fn is_alpha(c: char) -> bool {
    is_lower(c) || is_upper(c)
}

/// An ASCII letter or digit.
pub open spec fn is_alnum(c: char) -> bool {
    is_alpha(c) || is_digit(c)
}

/// An ASCII letter, digit or underscore: what may follow the head of an
/// unquoted SQL identifier.
pub open spec fn is_word(c: char) -> bool {
    is_alnum(c) || c == '_'
}

/// The Unicode `White_Space` characters.
pub open spec fn is_white(c: char) -> bool {
    ||| '\u{9}' <= c <= '\u{d}'
    ||| c == ' '
    ||| c == '\u{85}'
    ||| c == '\u{a0}'
    ||| c == '\u{1680}'
    ||| '\u{2000}' <= c <= '\u{200a}'
    ||| c == '\u{2028}'
    ||| c == '\u{2029}'
    ||| c == '\u{202f}'
    ||| c == '\u{205f}'
    ||| c == '\u{3000}'
}

pub fn char_is_digit(c: char) -> (r: bool)
    ensures
        r == is_digit(c),
{
    '0' <= c && c <= '9'
}

pub fn char_is_alpha(c: char) -> (r: bool)
    ensures
        r == is_alpha(c),
{
    ('a' <= c && c <= 'z') || ('A' <= c && c <= 'Z')
}

pub fn char_is_word(c: char) -> (r: bool)
    ensures
        r == is_word(c),
{
    char_is_alpha(c) || char_is_digit(c) || c == '_'
}

pub fn char_is_white(c: char) -> (r: bool)
    ensures
        r == is_white(c),
{
    ('\u{9}' <= c && c <= '\u{d}') || c == ' ' || c == '\u{85}' || c == '\u{a0}' || c == '\u{1680}'
        || ('\u{2000}' <= c && c <= '\u{200a}') || c == '\u{2028}' || c == '\u{2029}' || c
        == '\u{202f}' || c == '\u{205f}' || c == '\u{3000}'
}

/// The ASCII lower case of one character; other characters stand for themselves.
pub open spec fn lower_char(c: char) -> char {
    if is_upper(c) {
        ((c as u32) + 32) as char
    } else {
        c
    }
}

/// The ASCII upper case of one character; other characters stand for themselves.
pub open spec fn upper_char(c: char) -> char {
    if is_lower(c) {
        ((c as u32) - 32) as char
    } else {
        c
    }
}

pub fn char_lower(c: char) -> (r: char)
    ensures
        r == lower_char(c),
{
    if 'A' <= c && c <= 'Z' {
        ((c as u8) + 32) as char
    } else {
        c
    }
}

pub fn char_upper(c: char) -> (r: char)
    ensures
        r == upper_char(c),
{
    if 'a' <= c && c <= 'z' {
        ((c as u8) - 32) as char
    } else {
        c
    }
}

pub open spec fn lower(s: Seq<char>) -> Seq<char> {
    Seq::new(s.len(), |i: int| lower_char(s[i]))
}

pub open spec fn upper(s: Seq<char>) -> Seq<char> {
    Seq::new(s.len(), |i: int| upper_char(s[i]))
}

// ---------------------------------------------------------------------------
// Whole texts
// ---------------------------------------------------------------------------

/// The characters of `s`, in order.
pub fn chars_of(s: &str) -> (r: Vec<char>)
    ensures
        r@ == s@,
{
    let mut out: Vec<char> = Vec::new();
    for c in it: s.chars()
        invariant
            it.seq() == s@,
            out@ == it.seq().take(it.index()),
    {
        out.push(c);
    }
    out
}

/// The text made of the characters `v[from..to]`.
pub fn text_of(v: &Vec<char>, from: usize, to: usize) -> (r: String)
    requires
        from <= to <= v@.len(),
    ensures
        r@ == v@.subrange(from as int, to as int),
{
    let mut out = String::new();
    let mut i: usize = from;
    while i < to
        invariant
            from <= i <= to <= v@.len(),
            out@ == v@.subrange(from as int, i as int),
        decreases to - i,
    {
        out.push(v[i]);
        i += 1;
        proof {
            assert(v@.subrange(from as int, i as int) =~= v@.subrange(from as int, i - 1).push(
                v@[i - 1],
            ));
        }
    }
    out
}

pub fn same_text(a: &str, b: &str) -> (r: bool)
    ensures
        r == (a@ == b@),
{
    a.to_owned() == b.to_owned()
}

pub fn ascii_lowercase(s: &str) -> (r: String)
    ensures
        r@ == lower(s@),
{
    let mut out = String::new();
    for c in it: s.chars()
        invariant
            it.seq() == s@,
            out@ == lower(s@).take(it.index()),
    {
        out.push(char_lower(c));
        assert(lower(s@).take(it.index() + 1) =~= lower(s@).take(it.index()).push(lower_char(c)));
    }
    assert(lower(s@).take(s@.len() as int) =~= lower(s@));
    out
}

pub fn ascii_uppercase(s: &str) -> (r: String)
    ensures
        r@ == upper(s@),
{
    let mut out = String::new();
    for c in it: s.chars()
        invariant
            it.seq() == s@,
            out@ == upper(s@).take(it.index()),
    {
        out.push(char_upper(c));
        assert(upper(s@).take(it.index() + 1) =~= upper(s@).take(it.index()).push(upper_char(c)));
    }
    assert(upper(s@).take(s@.len() as int) =~= upper(s@));
    out
}

/// Equality up to the case of ASCII letters.
pub fn same_text_ignoring_case(a: &str, b: &str) -> (r: bool)
    ensures
        r == (lower(a@) == lower(b@)),
{
    ascii_lowercase(a) == ascii_lowercase(b)
}

// ---------------------------------------------------------------------------
// Trimming
// ---------------------------------------------------------------------------

/// `s` without its leading white space.
pub open spec fn trim_start_of(s: Seq<char>) -> Seq<char>
    decreases s.len(),
{
    if s.len() > 0 && is_white(s[0]) {
        trim_start_of(s.drop_first())
    } else {
        s
    }
}

/// `s` without its trailing white space.
pub open spec fn trim_end_of(s: Seq<char>) -> Seq<char>
    decreases s.len(),
{
    if s.len() > 0 && is_white(s.last()) {
        trim_end_of(s.drop_last())
    } else {
        s
    }
}

/// `s` without white space at either end.
pub open spec fn trim_of(s: Seq<char>) -> Seq<char> {
    trim_end_of(trim_start_of(s))
}

pub fn trim<'a>(s: &'a str) -> (r: &'a str)
    ensures
        r@ == trim_of(s@),
{
    let cs = chars_of(s);
    let n: usize = cs.len();
    let mut i: usize = 0;
    assert(s@.subrange(0, n as int) =~= s@);
    while i < n && char_is_white(cs[i])
        invariant
            cs@ == s@,
            i <= n == cs@.len(),
            trim_start_of(s@) == trim_start_of(s@.subrange(i as int, n as int)),
        decreases n - i,
    {
        assert(s@.subrange(i as int, n as int).drop_first() =~= s@.subrange(i + 1, n as int));
        i += 1;
    }
    assert(trim_start_of(s@) == s@.subrange(i as int, n as int));
    let mut j: usize = n;
    while i < j && char_is_white(cs[j - 1])
        invariant
            cs@ == s@,
            i <= j <= n == cs@.len(),
            trim_of(s@) == trim_end_of(s@.subrange(i as int, j as int)),
        decreases j - i,
    {
        assert(s@.subrange(i as int, j as int).drop_last() =~= s@.subrange(i as int, j - 1));
        j -= 1;
    }
    s.substring_char(i, j)
}

// ---------------------------------------------------------------------------
// Searching
// ---------------------------------------------------------------------------

/// `p` stands in `s` at position `i`.
pub open spec fn occurs_at(s: Seq<char>, p: Seq<char>, i: int) -> bool {
    0 <= i && i + p.len() <= s.len() && s.subrange(i, i + p.len()) == p
}

/// `p` stands somewhere in `s`.
pub open spec fn has_infix(s: Seq<char>, p: Seq<char>) -> bool {
    exists|i: int| occurs_at(s, p, i)
}

pub open spec fn has_prefix(s: Seq<char>, p: Seq<char>) -> bool {
    occurs_at(s, p, 0)
}

fn matches_at(s: &Vec<char>, p: &Vec<char>, i: usize) -> (r: bool)
    requires
        i + p@.len() <= s@.len(),
    ensures
        r == occurs_at(s@, p@, i as int),
{
    let n: usize = s.len();
    let mut k: usize = 0;
    while k < p.len()
        invariant
            k <= p@.len(),
            i + p@.len() <= s@.len() == n,
            forall|m: int| 0 <= m < k ==> s@[i + m] == p@[m],
        decreases p@.len() - k,
    {
        if s[i + k] != p[k] {
            assert(s@.subrange(i as int, i + p@.len())[k as int] != p@[k as int]);
            return false;
        }
        k += 1;
    }
    assert(s@.subrange(i as int, i + p@.len()) =~= p@);
    true
}

pub fn contains(s: &str, p: &str) -> (r: bool)
    ensures
        r == has_infix(s@, p@),
{
    let cs = chars_of(s);
    let cp = chars_of(p);
    if cp.len() > cs.len() {
        return false;
    }
    let mut i: usize = 0;
    let last: usize = cs.len() - cp.len();
    loop
        invariant
            cs@ == s@,
            cp@ == p@,
            last == cs@.len() - cp@.len(),
            i <= last,
            forall|m: int| 0 <= m < i ==> !occurs_at(s@, p@, m),
        decreases last - i,
    {
        if matches_at(&cs, &cp, i) {
            return true;
        }
        if i == last {
            assert forall|m: int| !occurs_at(s@, p@, m) by {
                if occurs_at(s@, p@, m) {
                    assert(m <= last);
                }
            }
            return false;
        }
        i += 1;
    }
}

pub fn starts_with(s: &str, p: &str) -> (r: bool)
    ensures
        r == has_prefix(s@, p@),
{
    let cs = chars_of(s);
    let cp = chars_of(p);
    if cp.len() > cs.len() {
        return false;
    }
    matches_at(&cs, &cp, 0)
}

/// The first position at or after `from` where `p` stands in `s`; -1 when there is none.
pub open spec fn find_from(s: Seq<char>, p: Seq<char>, from: int) -> int
    decreases s.len() + 1 - from,
{
    if from < 0 || from + p.len() > s.len() {
        -1
    } else if occurs_at(s, p, from) {
        from
    } else {
        find_from(s, p, from + 1)
    }
}

/// The first position where `p` stands in `s`.
pub fn find_text(s: &Vec<char>, p: &str) -> (r: Option<usize>)
    ensures
        match r {
            Some(i) => find_from(s@, p@, 0) == i && i + p@.len() <= s@.len(),
            None => find_from(s@, p@, 0) == -1,
        },
{
    let cp = chars_of(p);
    if cp.len() > s.len() {
        return None;
    }
    let last: usize = s.len() - cp.len();
    let mut i: usize = 0;
    loop
        invariant
            cp@ == p@,
            last == s@.len() - cp@.len(),
            i <= last,
            find_from(s@, p@, 0) == find_from(s@, p@, i as int),
        decreases last - i,
    {
        if matches_at(s, &cp, i) {
            return Some(i);
        }
        if i == last {
            assert(find_from(s@, p@, i + 1) == -1);
            return None;
        }
        i += 1;
    }
}

/// The first position of `c` in `s` at or after `from`; the length when there is none.
pub open spec fn index_from(s: Seq<char>, c: char, from: int) -> int
    decreases s.len() - from,
{
    if from < 0 || from >= s.len() {
        s.len() as int
    } else if s[from] == c {
        from
    } else {
        index_from(s, c, from + 1)
    }
}

pub fn position_from(s: &Vec<char>, c: char, from: usize) -> (r: usize)
    requires
        from <= s@.len(),
    ensures
        r == index_from(s@, c, from as int),
        from <= r <= s@.len(),
        r < s@.len() ==> s@[r as int] == c,
        forall|i: int| from <= i < r ==> s@[i] != c,
{
    let mut i: usize = from;
    while i < s.len() && s[i] != c
        invariant
            from <= i <= s@.len(),
            index_from(s@, c, from as int) == index_from(s@, c, i as int),
            forall|k: int| from <= k < i ==> s@[k] != c,
        decreases s@.len() - i,
    {
        i += 1;
    }
    i
}

// ---------------------------------------------------------------------------
// Splitting, joining, replacing
// ---------------------------------------------------------------------------

/// The pieces of `s` between the occurrences of `sep`.
pub open spec fn split_of(s: Seq<char>, sep: char) -> Seq<Seq<char>>
    decreases s.len(),
{
    let k = index_from(s, sep, 0);
    if 0 <= k < s.len() {
        seq![s.take(k)] + split_of(s.skip(k + 1), sep)
    } else {
        seq![s]
    }
}

proof fn lemma_index_shift(s: Seq<char>, c: char, cut: int, from: int)
    requires
        0 <= cut <= from <= s.len(),
    ensures
        index_from(s.skip(cut), c, from - cut) == index_from(s, c, from) - cut,
    decreases s.len() - from,
{
    if from < s.len() && s[from] != c {
        lemma_index_shift(s, c, cut, from + 1);
    }
}

pub fn split_on(s: &str, sep: char) -> (r: Vec<String>)
    ensures
        views(r@) == split_of(s@, sep),
{
    let cs = chars_of(s);
    let mut out: Vec<String> = Vec::new();
    let mut start: usize = 0;
    assert(s@.skip(0) =~= s@);
    loop
        invariant
            cs@ == s@,
            start <= cs@.len(),
            views(out@) + split_of(s@.skip(start as int), sep) == split_of(s@, sep),
        decreases cs@.len() - start,
    {
        let k: usize = position_from(&cs, sep, start);
        proof {
            lemma_index_shift(s@, sep, start as int, start as int);
        }
        let piece = text_of(&cs, start, k);
        let ghost before = out@;
        out.push(piece);
        proof {
            let rest = s@.skip(start as int);
            assert(rest.take(k - start) =~= piece@);
            assert(views(out@) =~= views(before).push(piece@));
            if k < s@.len() {
                assert(rest.skip(k - start + 1) =~= s@.skip(k + 1));
                assert(views(before) + (seq![piece@] + split_of(s@.skip(k + 1), sep)) =~= views(
                    out@,
                ) + split_of(s@.skip(k + 1), sep));
            } else {
                assert(rest =~= piece@);
                assert(views(before) + seq![rest] =~= views(out@));
            }
        }
        if k < cs.len() {
            start = k + 1;
        } else {
            return out;
        }
    }
}

/// The pieces without white space at their ends, the empty ones left out.
pub open spec fn trimmed_nonempty(pieces: Seq<Seq<char>>) -> Seq<Seq<char>>
    decreases pieces.len(),
{
    if pieces.len() == 0 {
        Seq::empty()
    } else {
        let before = trimmed_nonempty(pieces.drop_last());
        let last = trim_of(pieces.last());
        if last.len() == 0 {
            before
        } else {
            before.push(last)
        }
    }
}

/// The items of a list that is written with `sep` between them.
pub open spec fn list_items(s: Seq<char>, sep: char) -> Seq<Seq<char>> {
    trimmed_nonempty(split_of(s, sep))
}

/// Trims the pieces and leaves the empty ones out.
pub fn trim_pieces(pieces: &Vec<String>) -> (r: Vec<String>)
    ensures
        views(r@) == trimmed_nonempty(views(pieces@)),
{
    let ghost all = views(pieces@);
    let mut out: Vec<String> = Vec::new();
    let mut i: usize = 0;
    assert(views(out@) =~= trimmed_nonempty(all.take(0)));
    while i < pieces.len()
        invariant
            i <= pieces@.len(),
            all == views(pieces@),
            views(out@) == trimmed_nonempty(all.take(i as int)),
        decreases pieces@.len() - i,
    {
        let ghost before = out@;
        assert(all.take(i + 1).drop_last() =~= all.take(i as int));
        assert(all.take(i + 1).last() == pieces@[i as int]@);
        let item = trim(pieces[i].as_str());
        if !item.is_empty() {
            out.push(item.to_owned());
            assert(views(out@) =~= views(before).push(item@));
        }
        i += 1;
    }
    assert(all.take(all.len() as int) =~= all);
    out
}

pub fn split_list(s: &str, sep: char) -> (r: Vec<String>)
    ensures
        views(r@) == list_items(s@, sep),
{
    trim_pieces(&split_on(s, sep))
}

/// `s` with white space written as commas.
pub open spec fn white_as_commas(s: Seq<char>) -> Seq<char> {
    s.map_values(
        |c: char|
            if is_white(c) {
                ','
            } else {
                c
            },
    )
}

pub fn commas_for_white(s: &str) -> (r: String)
    ensures
        r@ == white_as_commas(s@),
{
    let mut out = String::new();
    for c in it: s.chars()
        invariant
            it.seq() == s@,
            out@ == white_as_commas(s@).take(it.index()),
    {
        let ghost before = out@;
        if char_is_white(c) {
            out.push(',');
        } else {
            out.push(c);
        }
        assert(white_as_commas(s@).take(it.index() + 1) =~= white_as_commas(s@).take(
            it.index(),
        ).push(white_as_commas(s@)[it.index()]));
    }
    assert(white_as_commas(s@).take(s@.len() as int) =~= white_as_commas(s@));
    out
}

/// The texts one after another, with `sep` between each two.
pub open spec fn join_of(parts: Seq<Seq<char>>, sep: Seq<char>) -> Seq<char>
    decreases parts.len(),
{
    if parts.len() == 0 {
        seq![]
    } else if parts.len() == 1 {
        parts[0]
    } else {
        join_of(parts.drop_last(), sep) + sep + parts.last()
    }
}

pub fn join(parts: &Vec<String>, sep: &str) -> (r: String)
    ensures
        r@ == join_of(views(parts@), sep@),
{
    let mut out = String::new();
    let mut i: usize = 0;
    while i < parts.len()
        invariant
            i <= parts@.len(),
            out@ == join_of(views(parts@).take(i as int), sep@),
        decreases parts@.len() - i,
    {
        if i > 0 {
            out.append(sep);
        }
        out.append(parts[i].as_str());
        proof {
            let t = views(parts@).take(i + 1);
            assert(t.drop_last() =~= views(parts@).take(i as int));
            assert(t.last() == parts@[i as int]@);
            if i == 0 {
                assert(out@ =~= t[0]);
            }
        }
        i += 1;
    }
    assert(views(parts@).take(parts@.len() as int) =~= views(parts@));
    out
}

/// `s` with every `c` written as `with`.
pub open spec fn replace_of(s: Seq<char>, c: char, with: Seq<char>) -> Seq<char>
    decreases s.len(),
{
    if s.len() == 0 {
        seq![]
    } else if s.last() == c {
        replace_of(s.drop_last(), c, with) + with
    } else {
        replace_of(s.drop_last(), c, with).push(s.last())
    }
}

pub fn replace_char(s: &str, c: char, with: &str) -> (r: String)
    ensures
        r@ == replace_of(s@, c, with@),
{
    let mut out = String::new();
    for d in it: s.chars()
        invariant
            it.seq() == s@,
            out@ == replace_of(s@.take(it.index()), c, with@),
    {
        if d == c {
            out.append(with);
        } else {
            out.push(d);
        }
        assert(s@.take(it.index() + 1).drop_last() =~= s@.take(it.index()));
    }
    assert(s@.take(s@.len() as int) =~= s@);
    out
}

// ---------------------------------------------------------------------------
// Order
// ---------------------------------------------------------------------------

/// `a` comes before `b` in the order of their characters, a text before its
/// continuations.
pub open spec fn text_less(a: Seq<char>, b: Seq<char>) -> bool
    decreases a.len(),
{
    if b.len() == 0 {
        false
    } else if a.len() == 0 {
        true
    } else if a[0] == b[0] {
        text_less(a.drop_first(), b.drop_first())
    } else {
        a[0] < b[0]
    }
}

pub fn text_before(a: &str, b: &str) -> (r: bool)
    ensures
        r == text_less(a@, b@),
{
    let ca = chars_of(a);
    let cb = chars_of(b);
    let mut i: usize = 0;
    assert(a@.skip(0) =~= a@ && b@.skip(0) =~= b@);
    while i < ca.len() && i < cb.len() && ca[i] == cb[i]
        invariant
            ca@ == a@,
            cb@ == b@,
            i <= ca@.len(),
            i <= cb@.len(),
            text_less(a@, b@) == text_less(a@.skip(i as int), b@.skip(i as int)),
        decreases ca@.len() - i,
    {
        assert(a@.skip(i as int).drop_first() =~= a@.skip(i + 1));
        assert(b@.skip(i as int).drop_first() =~= b@.skip(i + 1));
        i += 1;
    }
    if i >= cb.len() {
        false
    } else if i >= ca.len() {
        true
    } else {
        ca[i] < cb[i]
    }
}

/// The order of texts is irreflexive, transitive and total.
pub proof fn lemma_text_order(a: Seq<char>, b: Seq<char>, c: Seq<char>)
    ensures
        !text_less(a, a),
        text_less(a, b) && text_less(b, c) ==> text_less(a, c),
        text_less(a, b) || text_less(b, a) || a == b,
        !(text_less(a, b) && text_less(b, a)),
    decreases a.len() + b.len() + c.len(),
{
    if a.len() > 0 {
        lemma_text_order(
            a.drop_first(),
            if b.len() > 0 {
                b.drop_first()
            } else {
                b
            },
            if c.len() > 0 {
                c.drop_first()
            } else {
                c
            },
        );
        if b.len() > 0 && a[0] == b[0] && a.drop_first() == b.drop_first() {
            assert(a =~= seq![a[0]] + a.drop_first());
            assert(b =~= seq![b[0]] + b.drop_first());
        }
    } else if b.len() == 0 {
        assert(a =~= b);
    }
}

// ---------------------------------------------------------------------------
// Numbers
// ---------------------------------------------------------------------------

pub open spec fn digit_char(d: nat) -> char {
    (('0' as nat) + d) as char
}

/// The decimal digits of `n`, without leading zeros.
pub open spec fn digits_of(n: nat) -> Seq<char>
    decreases n,
{
    if n < 10 {
        seq![digit_char(n)]
    } else {
        digits_of(n / 10).push(digit_char(n % 10))
    }
}

/// The decimal rendering of an integer.
pub open spec fn decimal_of(n: int) -> Seq<char> {
    if n < 0 {
        seq!['-'] + digits_of((-n) as nat)
    } else {
        digits_of(n as nat)
    }
}

fn push_digits(out: &mut String, n: u128)
    ensures
        final(out)@ == old(out)@ + digits_of(n as nat),
    decreases n,
{
    if n >= 10 {
        push_digits(out, n / 10);
    }
    let d: u8 = (n % 10) as u8;
    out.push((48 + d) as char);
    assert(final(out)@ =~= old(out)@ + digits_of(n as nat));
}

pub fn decimal_u128(n: u128) -> (r: String)
    ensures
        r@ == decimal_of(n as int),
{
    let mut out = String::new();
    push_digits(&mut out, n);
    assert(out@ =~= digits_of(n as nat));
    out
}

pub fn decimal_i128(n: i128) -> (r: String)
    ensures
        r@ == decimal_of(n as int),
{
    if n < 0 {
        let mut out = String::new();
        out.push('-');
        let m: u128 = (-(n + 1)) as u128 + 1;
        push_digits(&mut out, m);
        assert(out@ =~= seq!['-'] + digits_of((-n) as nat));
        out
    } else {
        decimal_u128(n as u128)
    }
}

// ---------------------------------------------------------------------------
// Laws
// ---------------------------------------------------------------------------

/// White space is what Unicode gives the property of that name: the five controls from
/// the tab on, and the spaces and separators.
pub proof fn law_white_space(c: char)
    ensures
        is_white(c) <==> {
            let n = c as u32;
            9 <= n <= 13 || n == 32 || n == 133 || n == 160 || n == 5760 || 8192 <= n <= 8202 || n
                == 8232 || n == 8233 || n == 8239 || n == 8287 || n == 12288
        },
{
}

/// Digits, letters and the underscore are words, and nothing else is.
pub proof fn law_word_characters(c: char)
    ensures
        is_digit(c) <==> 48 <= c as u32 <= 57,
        is_alpha(c) <==> 65 <= c as u32 <= 90 || 97 <= c as u32 <= 122,
        is_word(c) <==> is_digit(c) || is_alpha(c) || c as u32 == 95,
{
}

/// Changing the case moves ASCII letters by 32 places, character by character, and leaves
/// everything else.
pub proof fn law_case_moves_letters(s: Seq<char>)
    ensures
        lower(s).len() == s.len(),
        upper(s).len() == s.len(),
        forall|i: int|
            0 <= i < s.len() ==> #[trigger] lower(s)[i] as int == s[i] as int + (if 65
                <= s[i] as int <= 90 {
                32int
            } else {
                0
            }),
        forall|i: int|
            0 <= i < s.len() ==> #[trigger] upper(s)[i] as int == s[i] as int - (if 97
                <= s[i] as int <= 122 {
                32int
            } else {
                0
            }),
        lower(upper(s)) == lower(s),
        upper(lower(s)) == upper(s),
{
    assert(lower(upper(s)) =~= lower(s));
    assert(upper(lower(s)) =~= upper(s));
}

/// Trimming takes white space from both ends, all of it, and nothing else.
pub proof fn law_trim_takes_the_ends(s: Seq<char>)
    ensures
        exists|a: Seq<char>, b: Seq<char>|
            is_blank(a) && is_blank(b) && s == #[trigger] (a + trim_of(s) + b),
        trim_of(s).len() > 0 ==> !is_white(trim_of(s)[0]) && !is_white(trim_of(s).last()),
{
    let p = lemma_trim_start(s);
    let x = trim_start_of(s);
    let q = lemma_trim_end(x);
    assert(s =~= s.take(p) + trim_of(s) + x.skip(q));
    if trim_of(s).len() > 0 {
        assert(trim_of(s)[0] == s[p]);
        assert(trim_of(s).last() == x[q - 1]);
    }
}

/// A text without white space at its ends is left as it is.
pub proof fn law_trim_leaves_the_rest(s: Seq<char>)
    requires
        s.len() > 0 ==> !is_white(s[0]) && !is_white(s.last()),
    ensures
        trim_of(s) == s,
{
    lemma_trim_start_is(s, 0);
    assert(s.skip(0) =~= s);
    lemma_trim_end_is(s, s.len() as int);
    assert(s.take(s.len() as int) =~= s);
}

/// A text holds another where it is something, the other, and something.
pub proof fn law_infix(a: Seq<char>, p: Seq<char>, b: Seq<char>)
    ensures
        has_infix(a + p + b, p),
        has_prefix(p + b, p),
        forall|s: Seq<char>| #[trigger]
            has_infix(s, p) ==> exists|x: Seq<char>, y: Seq<char>| s == #[trigger] (x + p + y),
        forall|s: Seq<char>| #[trigger]
            has_prefix(s, p) ==> exists|y: Seq<char>| s == #[trigger] (p + y),
{
    let s = a + p + b;
    assert(s.subrange(a.len() as int, a.len() as int + p.len()) =~= p);
    assert(occurs_at(s, p, a.len() as int));
    assert((p + b).subrange(0, 0int + p.len()) =~= p);
    assert forall|s: Seq<char>| #[trigger] has_infix(s, p) implies exists|x: Seq<char>, y: Seq<char>|
        s == #[trigger] (x + p + y) by {
        let i = choose|i: int| occurs_at(s, p, i);
        assert(s =~= s.take(i) + s.subrange(i, i + p.len()) + s.skip(i + p.len()));
        assert(s == s.take(i) + p + s.skip(i + p.len()));
    }
    assert forall|s: Seq<char>| #[trigger] has_prefix(s, p) implies exists|y: Seq<char>|
        s == #[trigger] (p + y) by {
        assert(s =~= s.subrange(0, 0int + p.len()) + s.skip(p.len() as int));
        assert(s == p + s.skip(p.len() as int));
    }
}

/// A search finds the first place at which a text occurs, and fails only where there is
/// none.
pub proof fn law_search_finds_the_first(s: Seq<char>, p: Seq<char>, from: int)
    requires
        0 <= from <= s.len(),
    ensures
        ({
            let k = find_from(s, p, from);
            &&& k == -1 || (from <= k && k + p.len() <= s.len() && s.subrange(k, k + p.len()) == p)
            &&& forall|i: int|
                from <= i && i + p.len() <= s.len() && (k == -1 || i < k) ==> #[trigger] s.subrange(
                    i,
                    i + p.len(),
                ) != p
        }),
    decreases s.len() + 1 - from,
{
    if from + p.len() <= s.len() && !occurs_at(s, p, from) {
        if from < s.len() {
            law_search_finds_the_first(s, p, from + 1);
        } else {
            assert(find_from(s, p, from + 1) == -1);
        }
    }
}

/// A search for a character finds the first, or ends behind the text.
pub proof fn law_index_is_the_first(s: Seq<char>, c: char, from: int)
    requires
        0 <= from <= s.len(),
    ensures
        from <= index_from(s, c, from) <= s.len(),
        index_from(s, c, from) < s.len() ==> s[index_from(s, c, from)] == c,
        forall|i: int| from <= i < index_from(s, c, from) ==> #[trigger] s[i] != c,
{
    lemma_index(s, c, from);
}

/// Joining sets the separator between the parts and nowhere else: one part is left as it
/// is, and two lists are joined by joining each and setting the separator between them.
pub proof fn law_join_sets_separators(a: Seq<Seq<char>>, b: Seq<Seq<char>>, sep: Seq<char>)
    requires
        a.len() > 0,
        b.len() > 0,
    ensures
        join_of(a + b, sep) == join_of(a, sep) + sep + join_of(b, sep),
        join_of(seq![a[0]], sep) == a[0],
        join_of(Seq::<Seq<char>>::empty(), sep) == Seq::<char>::empty(),
    decreases b.len(),
{
    assert((a + b).last() == b.last());
    assert((a + b).drop_last() =~= a + b.drop_last());
    if b.len() == 1 {
        assert(a + b.drop_last() =~= a);
    } else {
        law_join_sets_separators(a, b.drop_last(), sep);
        assert(join_of(a, sep) + sep + join_of(b.drop_last(), sep) + sep + b.last() =~= join_of(a, sep)
            + sep + (join_of(b.drop_last(), sep) + sep + b.last()));
    }
}

/// What was split joins again, and no piece holds the separator.
pub proof fn law_split_joins_again(s: Seq<char>, sep: char)
    ensures
        join_of(split_of(s, sep), seq![sep]) == s,
        split_of(s, sep).len() > 0,
        forall|k: int| 0 <= k < split_of(s, sep).len() ==> lacks(#[trigger] split_of(s, sep)[k], sep),
    decreases s.len(),
{
    lemma_index(s, sep, 0);
    let k = index_from(s, sep, 0);
    if k < s.len() {
        let rest = split_of(s.skip(k + 1), sep);
        law_split_joins_again(s.skip(k + 1), sep);
        law_join_sets_separators(seq![s.take(k)], rest, seq![sep]);
        assert(seq![s.take(k)][0] == s.take(k));
        assert(s =~= s.take(k) + seq![sep] + s.skip(k + 1));
        assert forall|j: int| 0 <= j < split_of(s, sep).len() implies lacks(
            #[trigger] split_of(s, sep)[j],
            sep,
        ) by {
            if j > 0 {
                assert(split_of(s, sep)[j] == rest[j - 1]);
            }
        }
    }
}

/// What was joined from parts that lack the separator splits into the parts.
pub proof fn law_join_splits_again(parts: Seq<Seq<char>>, sep: char)
    requires
        parts.len() > 0,
        forall|k: int| 0 <= k < parts.len() ==> lacks(#[trigger] parts[k], sep),
    ensures
        split_of(join_of(parts, seq![sep]), sep) == parts,
    decreases parts.len(),
{
    let s = join_of(parts, seq![sep]);
    let p = parts[0];
    assert(lacks(p, sep));
    if parts.len() == 1 {
        assert(s.take(s.len() as int) =~= s);
        lemma_index_is(s, sep, s.len() as int);
        assert(parts =~= seq![s]);
    } else {
        let rest = parts.skip(1);
        assert(parts =~= seq![p] + rest);
        law_join_sets_separators(seq![p], rest, seq![sep]);
        assert(seq![p][0] == p);
        assert(s.take(p.len() as int) =~= p);
        lemma_index_is(s, sep, p.len() as int);
        assert(s.skip(p.len() as int + 1) =~= join_of(rest, seq![sep]));
        assert forall|k: int| 0 <= k < rest.len() implies lacks(#[trigger] rest[k], sep) by {
            assert(lacks(parts[k + 1], sep));
        }
        law_join_splits_again(rest, sep);
    }
}

/// Splitting goes over a text from separator to separator.
pub(crate) proof fn lemma_split_concat(a: Seq<char>, b: Seq<char>, sep: char)
    ensures
        split_of(a + seq![sep] + b, sep) == split_of(a, sep) + split_of(b, sep),
    decreases a.len(),
{
    let s = a + seq![sep] + b;
    lemma_index(a, sep, 0);
    let k = index_from(a, sep, 0);
    assert(lacks(s.take(k), sep)) by {
        assert forall|i: int| 0 <= i < k implies #[trigger] s.take(k)[i] != sep by {
            assert(a[i] != sep);
        }
    }
    assert(s[k] == sep);
    lemma_index_is(s, sep, k);
    assert(s.take(k) =~= a.take(k));
    if k < a.len() {
        lemma_split_concat(a.skip(k + 1), b, sep);
        assert(s.skip(k + 1) =~= a.skip(k + 1) + seq![sep] + b);
        assert(split_of(s, sep) =~= split_of(a, sep) + split_of(b, sep));
    } else {
        assert(a.take(k) =~= a);
        assert(s.skip(k + 1) =~= b);
        assert(split_of(s, sep) =~= split_of(a, sep) + split_of(b, sep));
    }
}

/// A list is read piece by piece between its separators: a piece without one gives its
/// trimmed text, or nothing where that is empty.
pub proof fn law_list_items(a: Seq<char>, b: Seq<char>, sep: char)
    ensures
        lacks(a, sep) ==> list_items(a, sep) == (if trim_of(a).len() == 0 {
            Seq::<Seq<char>>::empty()
        } else {
            seq![trim_of(a)]
        }),
        list_items(a + seq![sep] + b, sep) == list_items(a, sep) + list_items(b, sep),
{
    lemma_split_concat(a, b, sep);
    lemma_trimmed_concat(split_of(a, sep), split_of(b, sep));
    if lacks(a, sep) {
        assert(a.take(a.len() as int) =~= a);
        lemma_index_is(a, sep, a.len() as int);
        let one = seq![a];
        assert(split_of(a, sep) =~= one);
        assert(one.drop_last() =~= Seq::<Seq<char>>::empty());
        assert(one.last() == a);
        assert(trimmed_nonempty(one.drop_last()) =~= Seq::<Seq<char>>::empty());
        assert(Seq::<Seq<char>>::empty().push(trim_of(a)) =~= seq![trim_of(a)]);
    }
}

proof fn lemma_trimmed_concat(a: Seq<Seq<char>>, b: Seq<Seq<char>>)
    ensures
        trimmed_nonempty(a + b) == trimmed_nonempty(a) + trimmed_nonempty(b),
    decreases b.len(),
{
    if b.len() == 0 {
        assert(a + b =~= a);
    } else {
        assert((a + b).drop_last() =~= a + b.drop_last());
        lemma_trimmed_concat(a, b.drop_last());
    }
}

/// White space becomes commas, place by place, and everything else stays.
pub proof fn law_white_becomes_commas(s: Seq<char>, i: int)
    requires
        0 <= i < s.len(),
    ensures
        white_as_commas(s).len() == s.len(),
        white_as_commas(s)[i] == (if is_white(s[i]) {
            ','
        } else {
            s[i]
        }),
{
}

/// Replacing works on each character by itself: the one that is replaced becomes the new
/// text, and every other stays.
pub proof fn law_replace_is_by_character(a: Seq<char>, b: Seq<char>, c: char, d: char, with: Seq<char>)
    ensures
        replace_of(a + b, c, with) == replace_of(a, c, with) + replace_of(b, c, with),
        replace_of(seq![c], c, with) == with,
        d != c ==> replace_of(seq![d], c, with) == seq![d],
        lacks(a, c) ==> replace_of(a, c, with) == a,
    decreases a.len() + b.len(),
{
    if b.len() == 0 {
        assert(a + b =~= a);
        if a.len() > 0 {
            law_replace_is_by_character(a.drop_last(), b, c, d, with);
            assert(lacks(a, c) ==> lacks(a.drop_last(), c));
            assert(a.drop_last().push(a.last()) =~= a);
        }
    } else {
        assert((a + b).drop_last() =~= a + b.drop_last());
        law_replace_is_by_character(a, b.drop_last(), c, d, with);
    }
    assert(seq![c].drop_last() =~= Seq::<char>::empty());
    assert(seq![d].drop_last() =~= Seq::<char>::empty());
    assert(replace_of(Seq::<char>::empty(), c, with) =~= Seq::<char>::empty());
    assert(Seq::<char>::empty() + with =~= with);
    assert(Seq::<char>::empty().push(d) =~= seq![d]);
}

/// Texts are ordered by the first character in which they differ, and a text comes before
/// every longer one that begins with it.
pub proof fn law_text_order_by_first_difference(
    p: Seq<char>,
    x: char,
    a: Seq<char>,
    y: char,
    b: Seq<char>,
)
    requires
        x != y,
    ensures
        text_less(p + seq![x] + a, p + seq![y] + b) == (x < y),
        text_less(p, p + seq![x] + a),
        !text_less(p + seq![x] + a, p),
        !text_less(p, p),
    decreases p.len(),
{
    if p.len() > 0 {
        let t = p.drop_first();
        law_text_order_by_first_difference(t, x, a, y, b);
        assert((p + seq![x] + a).drop_first() =~= t + seq![x] + a);
        assert((p + seq![y] + b).drop_first() =~= t + seq![y] + b);
    }
}

/// A number is written with digits alone, without leading zeros, and the digits write the
/// number; a negative one has a minus sign in front of the digits of its magnitude.
pub proof fn law_digits_write_the_number(n: nat)
    ensures
        digits_of(n).len() > 0,
        forall|i: int| 0 <= i < digits_of(n).len() ==> '0' <= #[trigger] digits_of(n)[i] <= '9',
        number_of(digits_of(n)) == n,
        n > 0 ==> digits_of(n)[0] != '0',
        n == 0 ==> digits_of(n) == seq!['0'],
        decimal_of(n as int) == digits_of(n),
        n > 0 ==> decimal_of(-(n as int)) == seq!['-'] + digits_of(n),
    decreases n,
{
    if n >= 10 {
        law_digits_write_the_number(n / 10);
        assert(digits_of(n).drop_last() =~= digits_of(n / 10));
        assert(digits_of(n)[0] == digits_of(n / 10)[0]);
    } else {
        assert(digits_of(n).drop_last() =~= Seq::<char>::empty());
        assert(number_of(Seq::<char>::empty()) == 0);
    }
}

/// A digit behind a number makes it ten times as large and adds the digit.
pub proof fn law_digit_adds_a_place(ds: Seq<char>, c: char)
    requires
        is_digit(c),
    ensures
        number_of(ds.push(c)) == 10 * number_of(ds) + (c as int - 48),
        number_of(Seq::<char>::empty()) == 0,
{
    assert(ds.push(c).drop_last() =~= ds);
}

} // verus!
