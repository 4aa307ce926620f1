//! SQL type texts and literals of intercepted statements.
use crate::extension_types::{Duckvalue, Logicaltype};
use crate::model::{view_opt, view_res, views, Decimalshape, Float64value, TypeModel, ValueModel};
use crate::spelling::{
    alike, is_blank, is_mark, lacks, lemma_alike_at, lemma_alike_exact, lemma_alike_lacks,
    lemma_alike_split, lemma_alike_trim, lemma_alike_words, lemma_index, lemma_index_is,
    lemma_last_index, lemma_last_index_is, lemma_same_words_concat, lemma_trim_end,
    lemma_trim_end_is, lemma_trim_start, lemma_trim_start_is, lemma_upper_join, lemma_words_blank,
    lemma_words_concat, lemma_words_trim, lemma_words_trim_end, lemma_words_trim_start,
};
use crate::text::{
    ascii_uppercase, char_is_digit, char_is_white, chars_of, has_infix, index_from, is_digit,
    is_lower, is_white, join, join_of, law_infix, law_join_sets_separators, law_join_splits_again,
    law_trim_leaves_the_rest, position_from, same_text, split_of, split_on, text_of, trim,
    trim_end_of, trim_of, trim_start_of, upper, upper_char,
};
use vstd::prelude::*;

verus! {

// ---------------------------------------------------------------------------
// Words and small numbers
// ---------------------------------------------------------------------------

/// The first white space in `s` at or after `from`; the length when there is none.
pub open spec fn white_from(s: Seq<char>, from: int) -> int
    decreases s.len() - from,
{
    if from < 0 || from >= s.len() {
        s.len() as int
    } else if is_white(s[from]) {
        from
    } else {
        white_from(s, from + 1)
    }
}

/// The words of `s`: its maximal runs without white space.
pub open spec fn words_of(s: Seq<char>) -> Seq<Seq<char>>
    decreases s.len(),
{
    if s.len() == 0 {
        Seq::empty()
    } else if is_white(s[0]) {
        words_of(s.drop_first())
    } else {
        let k = white_from(s, 0);
        if 0 < k <= s.len() {
            seq![s.take(k)] + words_of(s.skip(k))
        } else {
            Seq::empty()
        }
    }
}

pub(crate) proof fn lemma_white_from(s: Seq<char>, from: int)
    requires
        0 <= from <= s.len(),
    ensures
        from <= white_from(s, from) <= s.len(),
        white_from(s, from) < s.len() ==> is_white(s[white_from(s, from)]),
        from < s.len() && !is_white(s[from]) ==> white_from(s, from) > from,
    decreases s.len() - from,
{
    if from < s.len() && !is_white(s[from]) {
        lemma_white_from(s, from + 1);
    }
}

pub(crate) proof fn lemma_white_shift(s: Seq<char>, cut: int, from: int)
    requires
        0 <= cut <= from <= s.len(),
    ensures
        white_from(s.skip(cut), from - cut) == white_from(s, from) - cut,
    decreases s.len() - from,
{
    if from < s.len() && !is_white(s[from]) {
        lemma_white_shift(s, cut, from + 1);
    }
}

pub fn split_words(s: &str) -> (r: Vec<String>)
    ensures
        views(r@) == words_of(s@),
{
    let cs = chars_of(s);
    let n: usize = cs.len();
    let mut out: Vec<String> = Vec::new();
    let mut i: usize = 0;
    assert(s@.skip(0) =~= s@);
    assert(views(out@) + words_of(s@) =~= words_of(s@));
    while i < n
        invariant
            cs@ == s@,
            i <= n == cs@.len(),
            views(out@) + words_of(s@.skip(i as int)) == words_of(s@),
        decreases n - i,
    {
        if char_is_white(cs[i]) {
            assert(s@.skip(i as int).drop_first() =~= s@.skip(i + 1));
            i += 1;
        } else {
            let start: usize = i;
            let ghost rest = s@.skip(start as int);
            proof {
                lemma_white_from(rest, 0);
                lemma_white_shift(s@, start as int, start as int);
            }
            while i < n && !char_is_white(cs[i])
                invariant
                    cs@ == s@,
                    start <= i <= n == cs@.len(),
                    white_from(s@, start as int) == white_from(s@, i as int),
                decreases n - i,
            {
                i += 1;
            }
            let word = text_of(&cs, start, i);
            let ghost before = out@;
            out.push(word);
            proof {
                let k = i - start;
                assert(white_from(rest, 0) == k);
                assert(rest.take(k) =~= word@);
                assert(rest.skip(k) =~= s@.skip(i as int));
                assert(views(out@) =~= views(before).push(word@));
                assert(views(before) + (seq![word@] + words_of(s@.skip(i as int))) =~= views(out@)
                    + words_of(s@.skip(i as int)));
            }
        }
    }
    assert(s@.skip(n as int) =~= Seq::<char>::empty());
    assert(views(out@) + Seq::<Seq<char>>::empty() =~= views(out@));
    out
}

/// The number that a run of decimal digits writes.
pub open spec fn number_of(ds: Seq<char>) -> nat
    decreases ds.len(),
{
    if ds.len() == 0 {
        0
    } else {
        number_of(ds.drop_last()) * 10 + (ds.last() as nat - '0' as nat) as nat
    }
}

pub open spec fn all_digits(s: Seq<char>) -> bool {
    forall|i: int| 0 <= i < s.len() ==> is_digit(#[trigger] s[i])
}

/// The digits of a number text: without one leading plus sign.
pub open spec fn unsigned_digits(s: Seq<char>) -> Seq<char> {
    if s.len() > 0 && s[0] == '+' {
        s.skip(1)
    } else {
        s
    }
}

/// The small number that a text writes in decimal, up to 255.
pub open spec fn small_number(s: Seq<char>) -> Option<u8> {
    let ds = unsigned_digits(s);
    if ds.len() > 0 && all_digits(ds) && number_of(ds) <= 255 {
        Some(number_of(ds) as u8)
    } else {
        None
    }
}

proof fn lemma_number_grows(ds: Seq<char>, i: int)
    requires
        0 <= i <= ds.len(),
    ensures
        number_of(ds.take(i)) <= number_of(ds),
    decreases ds.len(),
{
    if i == ds.len() {
        assert(ds.take(i) =~= ds);
    } else {
        lemma_number_grows(ds.drop_last(), i);
        assert(ds.drop_last().take(i) =~= ds.take(i));
    }
}

pub fn parse_small(s: &str) -> (r: Option<u8>)
    ensures
        r == small_number(s@),
{
    let cs = chars_of(s);
    let n: usize = cs.len();
    let start: usize = if n > 0 && cs[0] == '+' {
        1
    } else {
        0
    };
    let ghost ds = unsigned_digits(s@);
    assert(ds =~= s@.skip(start as int));
    if start == n {
        return None;
    }
    let mut value: u16 = 0;
    let mut i: usize = start;
    while i < n
        invariant
            cs@ == s@,
            start <= i <= n == cs@.len(),
            ds == s@.skip(start as int),
            ds == unsigned_digits(s@),
            value <= 255,
            value == number_of(ds.take(i - start)),
            all_digits(ds.take(i - start)),
        decreases n - i,
    {
        if !char_is_digit(cs[i]) {
            assert(!is_digit(ds[i - start]));
            return None;
        }
        let d: u16 = cs[i] as u16 - 48;
        let ghost k = i - start;
        proof {
            assert(ds.take(k + 1).drop_last() =~= ds.take(k));
            assert(ds.take(k + 1).last() == s@[i as int]);
            assert forall|j: int| 0 <= j < k + 1 implies is_digit(#[trigger] ds.take(k + 1)[j]) by {
                if j < k {
                    assert(ds.take(k)[j] == ds.take(k + 1)[j]);
                }
            }
        }
        value = value * 10 + d;
        if value > 255 {
            proof {
                lemma_number_grows(ds, k + 1);
            }
            return None;
        }
        i += 1;
    }
    assert(ds.take(n - start) =~= ds);
    Some(value as u8)
}

// ---------------------------------------------------------------------------
// Type texts
// ---------------------------------------------------------------------------

/// The last position of `c` in `s`; -1 when there is none.
pub open spec fn last_index_of(s: Seq<char>, c: char) -> int
    decreases s.len(),
{
    if s.len() == 0 {
        -1
    } else if s.last() == c {
        s.len() - 1
    } else {
        last_index_of(s.drop_last(), c)
    }
}

fn last_position(s: &Vec<char>, c: char) -> (r: Option<usize>)
    ensures
        r == (if last_index_of(s@, c) < 0 {
            None::<usize>
        } else {
            Some(last_index_of(s@, c) as usize)
        }),
        r is Some ==> r->0 == last_index_of(s@, c) && r->0 < s@.len() && s@[r->0 as int] == c,
{
    let mut i: usize = s.len();
    assert(s@.take(i as int) =~= s@);
    while i > 0
        invariant
            i <= s@.len(),
            last_index_of(s@, c) == last_index_of(s@.take(i as int), c),
        decreases i,
    {
        assert(s@.take(i as int).drop_last() =~= s@.take(i - 1));
        if s[i - 1] == c {
            return Some(i - 1);
        }
        i -= 1;
    }
    None
}

/// The type that a normalised type name stands for. DECIMAL is not among them: its
/// shape comes from its argument list.
pub open spec fn named_type(up: Seq<char>) -> Option<TypeModel> {
    if up == "BOOLEAN"@ || up == "BOOL"@ {
        Some(TypeModel::Boolean)
    } else if up == "TINYINT"@ || up == "INT1"@ {
        Some(TypeModel::Int8)
    } else if up == "SMALLINT"@ || up == "INT2"@ {
        Some(TypeModel::Int16)
    } else if up == "INT"@ || up == "INTEGER"@ || up == "INT4"@ {
        Some(TypeModel::Int32)
    } else if up == "BIGINT"@ || up == "INT8"@ || up == "INT64"@ {
        Some(TypeModel::Int64)
    } else if up == "HUGEINT"@ || up == "INT128"@ {
        Some(TypeModel::Hugeint)
    } else if up == "UTINYINT"@ || up == "UINT1"@ {
        Some(TypeModel::Uint8)
    } else if up == "USMALLINT"@ || up == "UINT2"@ {
        Some(TypeModel::Uint16)
    } else if up == "UINTEGER"@ || up == "UINT4"@ {
        Some(TypeModel::Uint32)
    } else if up == "UBIGINT"@ || up == "UINT8"@ {
        Some(TypeModel::Uint64)
    } else if up == "UHUGEINT"@ || up == "UINT128"@ {
        Some(TypeModel::Uhugeint)
    } else if up == "REAL"@ || up == "FLOAT"@ || up == "FLOAT4"@ {
        Some(TypeModel::Float32)
    } else if up == "DOUBLE"@ || up == "DOUBLE PRECISION"@ || up == "FLOAT8"@ {
        Some(TypeModel::Float64)
    } else if up == "TEXT"@ || up == "VARCHAR"@ || up == "CHAR"@ || up == "CHARACTER"@ || up == "STRING"@ || up == "CLOB"@ {
        Some(TypeModel::Text)
    } else if up == "BLOB"@ || up == "BYTEA"@ || up == "BYTES"@ || up == "BINARY"@ || up == "VARBINARY"@ {
        Some(TypeModel::Blob)
    } else if up == "DATE"@ {
        Some(TypeModel::Date)
    } else if up == "TIME"@ {
        Some(TypeModel::Time)
    } else if up == "TIMESTAMP"@ || up == "DATETIME"@ {
        Some(TypeModel::Timestamp)
    } else if up == "TIMESTAMPTZ"@ || up == "TIMESTAMP_TZ"@ || up == "TIMESTAMP WITH TIME ZONE"@ {
        Some(TypeModel::Timestamptz)
    } else if up == "INTERVAL"@ {
        Some(TypeModel::Interval)
    } else if up == "UUID"@ {
        Some(TypeModel::Uuid)
    } else {
        None
    }
}

fn lookup_named_type(up: &str) -> (r: Option<Logicaltype>)
    ensures
        view_opt(r) == named_type(up@),
{
    if same_text(up, "BOOLEAN") || same_text(up, "BOOL") {
        Some(Logicaltype::Boolean)
    } else if same_text(up, "TINYINT") || same_text(up, "INT1") {
        Some(Logicaltype::Int8)
    } else if same_text(up, "SMALLINT") || same_text(up, "INT2") {
        Some(Logicaltype::Int16)
    } else if same_text(up, "INT") || same_text(up, "INTEGER") || same_text(up, "INT4") {
        Some(Logicaltype::Int32)
    } else if same_text(up, "BIGINT") || same_text(up, "INT8") || same_text(up, "INT64") {
        Some(Logicaltype::Int64)
    } else if same_text(up, "HUGEINT") || same_text(up, "INT128") {
        Some(Logicaltype::Hugeint)
    } else if same_text(up, "UTINYINT") || same_text(up, "UINT1") {
        Some(Logicaltype::Uint8)
    } else if same_text(up, "USMALLINT") || same_text(up, "UINT2") {
        Some(Logicaltype::Uint16)
    } else if same_text(up, "UINTEGER") || same_text(up, "UINT4") {
        Some(Logicaltype::Uint32)
    } else if same_text(up, "UBIGINT") || same_text(up, "UINT8") {
        Some(Logicaltype::Uint64)
    } else if same_text(up, "UHUGEINT") || same_text(up, "UINT128") {
        Some(Logicaltype::Uhugeint)
    } else if same_text(up, "REAL") || same_text(up, "FLOAT") || same_text(up, "FLOAT4") {
        Some(Logicaltype::Float32)
    } else if same_text(up, "DOUBLE") || same_text(up, "DOUBLE PRECISION") || same_text(up, "FLOAT8") {
        Some(Logicaltype::Float64)
    } else if same_text(up, "TEXT") || same_text(up, "VARCHAR") || same_text(up, "CHAR") || same_text(up, "CHARACTER") || same_text(up, "STRING") || same_text(up, "CLOB") {
        Some(Logicaltype::Text)
    } else if same_text(up, "BLOB") || same_text(up, "BYTEA") || same_text(up, "BYTES") || same_text(up, "BINARY") || same_text(up, "VARBINARY") {
        Some(Logicaltype::Blob)
    } else if same_text(up, "DATE") {
        Some(Logicaltype::Date)
    } else if same_text(up, "TIME") {
        Some(Logicaltype::Time)
    } else if same_text(up, "TIMESTAMP") || same_text(up, "DATETIME") {
        Some(Logicaltype::Timestamp)
    } else if same_text(up, "TIMESTAMPTZ") || same_text(up, "TIMESTAMP_TZ") || same_text(up, "TIMESTAMP WITH TIME ZONE") {
        Some(Logicaltype::Timestamptz)
    } else if same_text(up, "INTERVAL") {
        Some(Logicaltype::Interval)
    } else if same_text(up, "UUID") {
        Some(Logicaltype::Uuid)
    } else {
        None
    }
}

/// A type text taken apart: the name, and what stands between the first opening
/// and the last closing parenthesis.
pub open spec fn type_parts(s: Seq<char>) -> Result<(Seq<char>, Option<Seq<char>>), Seq<char>> {
    let open = index_from(s, '(', 0);
    let close = last_index_of(s, ')');
    if open >= s.len() {
        Ok((s, None))
    } else if close < 0 {
        Err("unbalanced parentheses in type '"@ + s + "'"@)
    } else if close < open {
        Err("mismatched parentheses in type '"@ + s + "'"@)
    } else {
        let base = trim_of(s.subrange(0, open));
        let inside = trim_of(s.subrange(open + 1, close));
        let tail = trim_of(s.subrange(close + 1, s.len() as int));
        Ok(
            (
                if tail.len() == 0 {
                    base
                } else {
                    base + " "@ + tail
                },
                Some(inside),
            ),
        )
    }
}

/// Words in upper case, one space between each two.
pub open spec fn normal_name(s: Seq<char>) -> Seq<char> {
    upper(join_of(words_of(s), " "@))
}

/// The arguments of a type: the pieces between commas, trimmed.
pub open spec fn type_args(inside: Seq<char>) -> Seq<Seq<char>> {
    split_of(inside, ',').map_values(|p: Seq<char>| trim_of(p))
}

/// The shape of a DECIMAL from its argument list; 18 digits with 3 behind the point
/// when there is none.
pub open spec fn decimal_shape(spec_text: Option<Seq<char>>) -> Result<Decimalshape, Seq<char>> {
    match spec_text {
        None => Ok(Decimalshape { width: 18, scale: 3 }),
        Some(inside) => {
            let args = type_args(inside);
            if args.len() == 1 {
                match small_number(args[0]) {
                    Some(w) => Ok(Decimalshape { width: w, scale: 0 }),
                    None => Err("DECIMAL width '"@ + args[0] + "' is not a small integer"@),
                }
            } else if args.len() == 2 {
                match (small_number(args[0]), small_number(args[1])) {
                    (None, _) => Err("DECIMAL width '"@ + args[0] + "' is not a small integer"@),
                    (Some(_), None) => Err("DECIMAL scale '"@ + args[1] + "' is not a small integer"@),
                    (Some(w), Some(sc)) => Ok(Decimalshape { width: w, scale: sc }),
                }
            } else {
                Err("DECIMAL takes 1 or 2 args, got '"@ + inside + "'"@)
            }
        },
    }
}

/// The type that a column type text of a `CREATE TABLE` stands for, or why it
/// stands for none.
pub open spec fn sql_type_of(text: Seq<char>) -> Result<TypeModel, Seq<char>> {
    let s = trim_of(text);
    if s.len() == 0 {
        Err("empty type text"@)
    } else {
        match type_parts(s) {
            Err(e) => Err(e),
            Ok((base, spec_text)) => {
                let up = normal_name(base);
                match named_type(up) {
                    Some(t) => Ok(t),
                    None => if up == "DECIMAL"@ || up == "NUMERIC"@ {
                        match decimal_shape(spec_text) {
                            Ok(shape) => Ok(TypeModel::Decimal(shape)),
                            Err(e) => Err(e),
                        }
                    } else {
                        Err(
                            "unrecognized SQL type '"@ + up
                                + "' (add a mapping in sql_type_to_extension_logical if the storage backend supports it)"@,
                        )
                    },
                }
            },
        }
    }
}

fn quoted(before: &str, s: &str, after: &str) -> (r: String)
    ensures
        r@ == before@ + s@ + after@,
{
    let mut out = before.to_owned();
    out.append(s);
    out.append(after);
    out
}

fn split_type(s: &str) -> (r: Result<(String, Option<String>), String>)
    ensures
        match (r, type_parts(s@)) {
            (Ok(p), Ok(q)) => p.0@ == q.0 && view_opt(p.1) == q.1,
            (Err(e), Err(f)) => e@ == f,
            _ => false,
        },
{
    let cs = chars_of(s);
    let open: usize = position_from(&cs, '(', 0);
    if open >= cs.len() {
        return Ok((s.to_owned(), None));
    }
    match last_position(&cs, ')') {
        None => Err(quoted("unbalanced parentheses in type '", s, "'")),
        Some(close) => {
            if close < open {
                return Err(quoted("mismatched parentheses in type '", s, "'"));
            }
            let base_text = text_of(&cs, 0, open);
            let inside_text = text_of(&cs, open + 1, close);
            let tail_text = text_of(&cs, close + 1, cs.len());
            let base = trim(base_text.as_str());
            let inside = trim(inside_text.as_str());
            let tail = trim(tail_text.as_str());
            let full_base = if tail.is_empty() {
                base.to_owned()
            } else {
                quoted(base, " ", tail)
            };
            Ok((full_base, Some(inside.to_owned())))
        },
    }
}

fn parse_decimal_shape(spec_text: &Option<String>) -> (r: Result<Decimalshape, String>)
    ensures
        match r {
            Ok(shape) => decimal_shape(view_opt(*spec_text)) == Ok::<Decimalshape, Seq<char>>(shape),
            Err(e) => decimal_shape(view_opt(*spec_text)) == Err::<Decimalshape, Seq<char>>(e@),
        },
{
    match spec_text {
        None => Ok(Decimalshape { width: 18, scale: 3 }),
        Some(inside) => {
            let pieces = split_on(inside.as_str(), ',');
            let ghost args = type_args(inside@);
            assert(args.len() == pieces@.len()) by {
                assert(views(pieces@).len() == pieces@.len());
            }
            if pieces.len() == 1 {
                let w = trim(pieces[0].as_str());
                assert(views(pieces@)[0] == pieces@[0]@);
                match parse_small(w) {
                    Some(width) => Ok(Decimalshape { width, scale: 0 }),
                    None => Err(quoted("DECIMAL width '", w, "' is not a small integer")),
                }
            } else if pieces.len() == 2 {
                let w = trim(pieces[0].as_str());
                let sc = trim(pieces[1].as_str());
                assert(views(pieces@)[0] == pieces@[0]@);
                assert(views(pieces@)[1] == pieces@[1]@);
                match parse_small(w) {
                    None => Err(quoted("DECIMAL width '", w, "' is not a small integer")),
                    Some(width) => match parse_small(sc) {
                        None => Err(quoted("DECIMAL scale '", sc, "' is not a small integer")),
                        Some(scale) => Ok(Decimalshape { width, scale }),
                    },
                }
            } else {
                Err(quoted("DECIMAL takes 1 or 2 args, got '", inside.as_str(), "'"))
            }
        },
    }
}

pub fn sql_type_to_extension_logical(type_text: &str) -> (r: Result<Logicaltype, String>)
    ensures
        view_res(r) == sql_type_of(type_text@),
{
    let s = trim(type_text);
    if s.is_empty() {
        return Err("empty type text".to_owned());
    }
    match split_type(s) {
        Err(e) => Err(e),
        Ok((base, spec_text)) => {
            let words = split_words(base.as_str());
            let up = ascii_uppercase(join(&words, " ").as_str());
            match lookup_named_type(up.as_str()) {
                Some(t) => Ok(t),
                None => if same_text(up.as_str(), "DECIMAL") || same_text(up.as_str(), "NUMERIC") {
                    match parse_decimal_shape(&spec_text) {
                        Ok(shape) => Ok(Logicaltype::Decimal(shape)),
                        Err(e) => Err(e),
                    }
                } else {
                    Err(
                        quoted(
                            "unrecognized SQL type '",
                            up.as_str(),
                            "' (add a mapping in sql_type_to_extension_logical if the storage backend supports it)",
                        ),
                    )
                },
            }
        },
    }
}

/// The type that a bare type name stands for where unknown names pass through.
pub open spec fn common_type(up: Seq<char>) -> Option<TypeModel> {
    if up == "INT"@ || up == "INTEGER"@ || up == "INT4"@ {
        Some(TypeModel::Int32)
    } else if up == "BIGINT"@ || up == "INT8"@ {
        Some(TypeModel::Int64)
    } else if up == "SMALLINT"@ || up == "INT2"@ {
        Some(TypeModel::Int16)
    } else if up == "TINYINT"@ {
        Some(TypeModel::Int8)
    } else if up == "UBIGINT"@ {
        Some(TypeModel::Uint64)
    } else if up == "UINTEGER"@ {
        Some(TypeModel::Uint32)
    } else if up == "USMALLINT"@ {
        Some(TypeModel::Uint16)
    } else if up == "UTINYINT"@ {
        Some(TypeModel::Uint8)
    } else if up == "REAL"@ || up == "FLOAT4"@ {
        Some(TypeModel::Float32)
    } else if up == "DOUBLE"@ || up == "FLOAT"@ || up == "FLOAT8"@ || up == "DOUBLE PRECISION"@ {
        Some(TypeModel::Float64)
    } else if up == "BOOL"@ || up == "BOOLEAN"@ {
        Some(TypeModel::Boolean)
    } else if up == "TEXT"@ || up == "STRING"@ || up == "VARCHAR"@ || up == "CHAR"@ {
        Some(TypeModel::Text)
    } else if up == "BLOB"@ || up == "BYTEA"@ || up == "BYTES"@ {
        Some(TypeModel::Blob)
    } else if up == "DATE"@ {
        Some(TypeModel::Date)
    } else if up == "TIME"@ {
        Some(TypeModel::Time)
    } else if up == "TIMESTAMP"@ || up == "DATETIME"@ {
        Some(TypeModel::Timestamp)
    } else if up == "TIMESTAMPTZ"@ {
        Some(TypeModel::Timestamptz)
    } else if up == "UUID"@ {
        Some(TypeModel::Uuid)
    } else {
        None
    }
}

fn lookup_common_type(up: &str) -> (r: Option<Logicaltype>)
    ensures
        view_opt(r) == common_type(up@),
{
    if same_text(up, "INT") || same_text(up, "INTEGER") || same_text(up, "INT4") {
        Some(Logicaltype::Int32)
    } else if same_text(up, "BIGINT") || same_text(up, "INT8") {
        Some(Logicaltype::Int64)
    } else if same_text(up, "SMALLINT") || same_text(up, "INT2") {
        Some(Logicaltype::Int16)
    } else if same_text(up, "TINYINT") {
        Some(Logicaltype::Int8)
    } else if same_text(up, "UBIGINT") {
        Some(Logicaltype::Uint64)
    } else if same_text(up, "UINTEGER") {
        Some(Logicaltype::Uint32)
    } else if same_text(up, "USMALLINT") {
        Some(Logicaltype::Uint16)
    } else if same_text(up, "UTINYINT") {
        Some(Logicaltype::Uint8)
    } else if same_text(up, "REAL") || same_text(up, "FLOAT4") {
        Some(Logicaltype::Float32)
    } else if same_text(up, "DOUBLE") || same_text(up, "FLOAT") || same_text(up, "FLOAT8") || same_text(up, "DOUBLE PRECISION") {
        Some(Logicaltype::Float64)
    } else if same_text(up, "BOOL") || same_text(up, "BOOLEAN") {
        Some(Logicaltype::Boolean)
    } else if same_text(up, "TEXT") || same_text(up, "STRING") || same_text(up, "VARCHAR") || same_text(up, "CHAR") {
        Some(Logicaltype::Text)
    } else if same_text(up, "BLOB") || same_text(up, "BYTEA") || same_text(up, "BYTES") {
        Some(Logicaltype::Blob)
    } else if same_text(up, "DATE") {
        Some(Logicaltype::Date)
    } else if same_text(up, "TIME") {
        Some(Logicaltype::Time)
    } else if same_text(up, "TIMESTAMP") || same_text(up, "DATETIME") {
        Some(Logicaltype::Timestamp)
    } else if same_text(up, "TIMESTAMPTZ") {
        Some(Logicaltype::Timestamptz)
    } else if same_text(up, "UUID") {
        Some(Logicaltype::Uuid)
    } else {
        None
    }
}

/// A type text without white space at its ends and without its argument list.
pub open spec fn bare_type(ty: Seq<char>) -> Seq<char> {
    let t = trim_of(ty);
    let paren = index_from(t, '(', 0);
    if 0 <= paren < t.len() {
        trim_of(t.subrange(0, paren))
    } else {
        t
    }
}

/// The lenient reading of a type text: what is not known travels as it is written.
pub fn parse_sql_type_to_logical(ty: &str) -> (r: Logicaltype)
    ensures
        r@ == match common_type(upper(bare_type(ty@))) {
            Some(t) => t,
            None => TypeModel::Complex(bare_type(ty@)),
        },
{
    let t = trim(ty);
    let cs = chars_of(t);
    let paren: usize = position_from(&cs, '(', 0);
    let bare: String = if paren < cs.len() {
        let head = text_of(&cs, 0, paren);
        trim(head.as_str()).to_owned()
    } else {
        t.to_owned()
    };
    match lookup_common_type(ascii_uppercase(bare.as_str()).as_str()) {
        Some(t) => t,
        None => Logicaltype::Complex(bare),
    }
}

// ---------------------------------------------------------------------------
// Literals
// ---------------------------------------------------------------------------

/// A value as it was written in a statement.
#[derive(Debug)]
pub enum ValueLiteral {
    Null,
    Integer(i64),
    Float(Float64value),
    Text(String),
    Blob(Vec<u8>),
    /// An expression that is no literal.
    Raw(String),
}

/// The value of a literal, or why it cannot be handed to an extension.
pub open spec fn literal_value(lit: ValueLiteral) -> Result<ValueModel, Seq<char>> {
    match lit {
        ValueLiteral::Null => Ok(ValueModel::Null),
        ValueLiteral::Integer(n) => Ok(ValueModel::Int64(n)),
        ValueLiteral::Float(f) => Ok(ValueModel::Float64(f@)),
        ValueLiteral::Text(s) => Ok(ValueModel::Text(s@)),
        ValueLiteral::Blob(b) => Ok(ValueModel::Blob(b@)),
        ValueLiteral::Raw(expr) => Err(
            "unsupported expression `"@ + expr@
                + "` in VALUES tuple (only literals NULL/int/float/'string'/X'hex' are routed to the extension)"@,
        ),
    }
}

pub fn literal_to_extension_duckvalue(lit: ValueLiteral) -> (r: Result<Duckvalue, String>)
    ensures
        view_res(r) == literal_value(lit),
{
    match lit {
        ValueLiteral::Null => Ok(Duckvalue::Null),
        ValueLiteral::Integer(n) => Ok(Duckvalue::Int64(n)),
        ValueLiteral::Float(f) => Ok(Duckvalue::Float64(f)),
        ValueLiteral::Text(s) => Ok(Duckvalue::Text(s)),
        ValueLiteral::Blob(b) => Ok(Duckvalue::Blob(b)),
        ValueLiteral::Raw(expr) => Err(
            quoted(
                "unsupported expression `",
                expr.as_str(),
                "` in VALUES tuple (only literals NULL/int/float/'string'/X'hex' are routed to the extension)",
            ),
        ),
    }
}

// ---------------------------------------------------------------------------
// Laws
// ---------------------------------------------------------------------------

/// The name of a type is made of the words around its argument list.
proof fn lemma_parts_name(s: Seq<char>)
    requires
        type_parts(s) is Ok,
        index_from(s, '(', 0) < s.len(),
    ensures
        ({
            let open = index_from(s, '(', 0);
            let close = last_index_of(s, ')');
            &&& 0 <= open < close < s.len()
            &&& words_of(type_parts(s)->Ok_0.0) == words_of(s.take(open)) + words_of(
                s.skip(close + 1),
            )
            &&& type_parts(s)->Ok_0.1 == Some(trim_of(s.subrange(open + 1, close)))
        }),
{
    lemma_index(s, '(', 0);
    lemma_last_index(s, ')');
    let open = index_from(s, '(', 0);
    let close = last_index_of(s, ')');
    assert(open != close);
    let base = trim_of(s.subrange(0, open));
    let tail = trim_of(s.subrange(close + 1, s.len() as int));
    assert(s.subrange(0, open) =~= s.take(open));
    assert(s.subrange(close + 1, s.len() as int) =~= s.skip(close + 1));
    lemma_words_trim(s.take(open));
    lemma_words_trim(s.skip(close + 1));
    if tail.len() == 0 {
        lemma_words_blank(tail);
        assert(words_of(base) + words_of(tail) =~= words_of(base));
    } else {
        reveal_strlit(" ");
        let rest = " "@ + tail;
        assert(rest[0] == ' ');
        assert(rest.drop_first() =~= tail);
        lemma_words_concat(base, rest);
        assert(base + rest =~= base + " "@ + tail);
    }
}

/// An argument list for DECIMAL means the same however it is spaced.
proof fn lemma_alike_shape(a: Seq<char>, b: Seq<char>)
    requires
        alike(a, b),
        decimal_shape(Some(a)) is Ok,
    ensures
        decimal_shape(Some(b)) == decimal_shape(Some(a)),
{
    lemma_alike_split(a, b, ',');
    let xs = type_args(a);
    let ys = type_args(b);
    assert(xs.len() == ys.len());
    assert forall|k: int| 0 <= k < xs.len() && small_number(xs[k]) is Some implies xs[k] == ys[k] by {
        assert(alike(split_of(a, ',')[k], split_of(b, ',')[k]));
        lemma_alike_trim(split_of(a, ',')[k], split_of(b, ',')[k]);
        let x = xs[k];
        let ds = unsigned_digits(x);
        assert forall|i: int| 0 <= i < x.len() implies is_mark(#[trigger] x[i]) by {
            if x[0] == '+' {
                if i > 0 {
                    assert(is_digit(ds[i - 1]));
                }
            } else {
                assert(is_digit(ds[i]));
            }
        }
        lemma_alike_exact(x, ys[k]);
    }
    if xs.len() == 1 {
        assert(xs[0] == ys[0]);
    } else if xs.len() == 2 {
        assert(xs[0] == ys[0] && xs[1] == ys[1]);
    }
}

/// The spelling of a type does not matter: letter case, white space around it, and the
/// length of the white space within it leave the type that a text names.
pub proof fn law_type_spelling_is_free(a: Seq<char>, b: Seq<char>)
    requires
        alike(trim_of(a), trim_of(b)),
        sql_type_of(a) is Ok,
    ensures
        sql_type_of(b) == sql_type_of(a),
{
    let s = trim_of(a);
    let u = trim_of(b);
    lemma_index(s, '(', 0);
    let open = index_from(s, '(', 0);
    if open >= s.len() {
        assert(lacks(s, '('));
        lemma_alike_lacks(s, u, '(');
        assert(u.take(u.len() as int) =~= u);
        lemma_index_is(u, '(', u.len() as int);
        lemma_alike_words(s, u);
        lemma_upper_join(words_of(s), words_of(u), " "@);
    } else {
        lemma_parts_name(s);
        let close = last_index_of(s, ')');
        lemma_last_index(s, ')');
        let open_u = lemma_alike_at(s, u, open);
        assert(u[open_u] == '(');
        assert(lacks(s.take(open), '('));
        lemma_alike_lacks(s.take(open), u.take(open_u), '(');
        lemma_index_is(u, '(', open_u);
        let rs = s.skip(open + 1);
        let ru = u.skip(open_u + 1);
        let k = close - open - 1;
        assert(rs[k] == ')');
        let m = lemma_alike_at(rs, ru, k);
        assert(ru[m] == ')');
        let close_u = open_u + 1 + m;
        assert(rs.skip(k + 1) =~= s.skip(close + 1));
        assert(ru.skip(m + 1) =~= u.skip(close_u + 1));
        lemma_alike_lacks(s.skip(close + 1), u.skip(close_u + 1), ')');
        lemma_last_index_is(u, ')', close_u);
        lemma_parts_name(u);
        lemma_alike_words(s.take(open), u.take(open_u));
        lemma_alike_words(s.skip(close + 1), u.skip(close_u + 1));
        lemma_same_words_concat(
            words_of(s.take(open)),
            words_of(u.take(open_u)),
            words_of(s.skip(close + 1)),
            words_of(u.skip(close_u + 1)),
        );
        let base_s = type_parts(s)->Ok_0.0;
        let base_u = type_parts(u)->Ok_0.0;
        lemma_upper_join(words_of(base_s), words_of(base_u), " "@);
        assert(rs.take(k) =~= s.subrange(open + 1, close));
        assert(ru.take(m) =~= u.subrange(open_u + 1, close_u));
        lemma_alike_trim(rs.take(k), ru.take(m));
        if decimal_shape(type_parts(s)->Ok_0.1) is Ok {
            lemma_alike_shape(trim_of(rs.take(k)), trim_of(ru.take(m)));
        }
    }
}

/// A type text with an argument list.
pub open spec fn with_argument(head: Seq<char>, inside: Seq<char>, tail: Seq<char>) -> Seq<char> {
    head + seq!['('] + inside + seq![')'] + tail
}

/// The name of a type text with an argument list does not hang on the list.
proof fn lemma_argument_parts(head: Seq<char>, inside: Seq<char>, tail: Seq<char>)
    requires
        lacks(head, '('),
        lacks(tail, ')'),
    ensures
        trim_of(with_argument(head, inside, tail)).len() > 0,
        type_parts(trim_of(with_argument(head, inside, tail))) is Ok,
        words_of(type_parts(trim_of(with_argument(head, inside, tail)))->Ok_0.0) == words_of(head)
            + words_of(tail),
        type_parts(trim_of(with_argument(head, inside, tail)))->Ok_0.1 == Some(trim_of(inside)),
{
    let text = with_argument(head, inside, tail);
    let p = lemma_trim_start(head);
    let q = lemma_trim_end(tail);
    let n = head.len();
    let m = n + 1 + inside.len();
    assert(text[n as int] == '(');
    assert(text[m as int] == ')');
    assert(text.take(p) =~= head.take(p));
    if p < n {
        assert(text[p] == head[p]);
    }
    lemma_trim_start_is(text, p);
    let s1 = trim_start_of(text);
    let end = m + 1 + q - p;
    assert(s1.skip(end) =~= tail.skip(q));
    if q > 0 {
        assert(s1[end - 1] == tail[q - 1]);
    } else {
        assert(s1[end - 1] == ')');
    }
    lemma_trim_end_is(s1, end);
    let s = trim_of(text);
    assert(s == s1.take(end));
    let open = n - p;
    let close = m - p;
    assert(s[open] == '(' && s[close] == ')');
    assert(s.take(open) =~= head.skip(p));
    assert(s.skip(close + 1) =~= tail.take(q));
    assert forall|i: int| 0 <= i < s.take(open).len() implies #[trigger] s.take(open)[i] != '(' by {
        assert(head[p + i] != '(');
    }
    lemma_index_is(s, '(', open);
    assert forall|i: int| 0 <= i < s.skip(close + 1).len() implies #[trigger] s.skip(close + 1)[i]
        != ')' by {
        assert(tail[i] != ')');
    }
    lemma_last_index_is(s, ')', close);
    lemma_parts_name(s);
    lemma_words_trim_start(head);
    lemma_words_trim_end(tail);
    assert(s.subrange(open + 1, close) =~= inside);
}

/// The argument of a type other than DECIMAL does not matter, nor does the spelling of
/// what stands around it.
pub proof fn law_type_argument_is_ignored(
    head: Seq<char>,
    inside: Seq<char>,
    tail: Seq<char>,
    other_head: Seq<char>,
    other_inside: Seq<char>,
    other_tail: Seq<char>,
)
    requires
        lacks(head, '('),
        lacks(tail, ')'),
        alike(trim_of(head), trim_of(other_head)),
        alike(trim_of(tail), trim_of(other_tail)),
        sql_type_of(with_argument(head, inside, tail)) is Ok,
        !(sql_type_of(with_argument(head, inside, tail))->Ok_0 is Decimal),
    ensures
        sql_type_of(with_argument(other_head, other_inside, other_tail)) == sql_type_of(
            with_argument(head, inside, tail),
        ),
{
    lemma_trimmed_lacks(head, other_head, '(');
    lemma_trimmed_lacks(tail, other_tail, ')');
    lemma_argument_parts(head, inside, tail);
    lemma_argument_parts(other_head, other_inside, other_tail);
    lemma_words_trim(head);
    lemma_words_trim(tail);
    lemma_words_trim(other_head);
    lemma_words_trim(other_tail);
    lemma_alike_words(trim_of(head), trim_of(other_head));
    lemma_alike_words(trim_of(tail), trim_of(other_tail));
    lemma_same_words_concat(
        words_of(head),
        words_of(other_head),
        words_of(tail),
        words_of(other_tail),
    );
    let base = type_parts(trim_of(with_argument(head, inside, tail)))->Ok_0.0;
    let other = type_parts(trim_of(with_argument(other_head, other_inside, other_tail)))->Ok_0.0;
    lemma_upper_join(words_of(base), words_of(other), " "@);
}

proof fn lemma_trimmed_lacks(a: Seq<char>, b: Seq<char>, c: char)
    requires
        alike(trim_of(a), trim_of(b)),
        is_mark(c),
        lacks(a, c),
    ensures
        lacks(b, c),
{
    let p = lemma_trim_start(a);
    let q = lemma_trim_end(trim_start_of(a));
    assert forall|i: int| 0 <= i < trim_of(a).len() implies #[trigger] trim_of(a)[i] != c by {
        assert(a[p + i] != c);
    }
    lemma_alike_lacks(trim_of(a), trim_of(b), c);
    let r = lemma_trim_start(b);
    let b2 = trim_start_of(b);
    let t = lemma_trim_end(b2);
    assert forall|i: int| 0 <= i < b.len() implies #[trigger] b[i] != c by {
        if i < r {
            assert(b.take(r)[i] == b[i]);
        } else if i - r < t {
            assert(trim_of(b)[i - r] == b[i]);
        } else {
            assert(b2.skip(t)[i - r - t] == b[i]);
        }
    }
}

/// A blank text names no type, and neither does a name that is not in the table.
pub proof fn law_unknown_type_is_refused(text: Seq<char>)
    ensures
        is_blank(text) ==> sql_type_of(text) is Err,
        type_parts(trim_of(text)) matches Ok((base, _)) ==> named_type(normal_name(base)) is None
            && normal_name(base) != "DECIMAL"@ && normal_name(base) != "NUMERIC"@ ==> sql_type_of(
            text,
        ) is Err,
{
    if is_blank(text) {
        let p = lemma_trim_start(text);
        if p < text.len() {
            assert(is_white(text[p]));
        }
        assert(trim_of(text).len() == 0);
    }
}

/// Reading words goes over a text from white space to white space: a text without any is
/// one word, and texts with white space between them give the words of both.
pub proof fn law_words_stand_between_white_space(a: Seq<char>, c: char, b: Seq<char>)
    requires
        is_white(c),
    ensures
        words_of(a + seq![c] + b) == words_of(a) + words_of(b),
        a.len() > 0 && (forall|i: int| 0 <= i < a.len() ==> !is_white(#[trigger] a[i])) ==> words_of(a)
            == seq![a],
        is_blank(a) ==> words_of(a).len() == 0,
{
    let tail = seq![c] + b;
    assert(tail[0] == c);
    assert(tail.drop_first() =~= b);
    lemma_words_concat(a, tail);
    assert(a + tail =~= a + seq![c] + b);
    if a.len() > 0 && (forall|i: int| 0 <= i < a.len() ==> !is_white(#[trigger] a[i])) {
        lemma_one_word(a);
    }
    if is_blank(a) {
        lemma_words_blank(a);
    }
}

proof fn lemma_one_word(s: Seq<char>)
    requires
        s.len() > 0,
        forall|i: int| 0 <= i < s.len() ==> !is_white(#[trigger] s[i]),
    ensures
        words_of(s) == seq![s],
{
    lemma_white_from(s, 0);
    assert(!is_white(s[0]));
    assert(white_from(s, 0) == s.len());
    assert(s.take(s.len() as int) =~= s);
    assert(words_of(s.skip(s.len() as int)) =~= Seq::<Seq<char>>::empty());
    assert(seq![s] + Seq::<Seq<char>>::empty() =~= seq![s]);
}

/// A text of one word that is written in capitals is its own name.
proof fn lemma_plain_name(s: Seq<char>, up: Seq<char>)
    requires
        s.len() > 0,
        upper(s) == up,
        forall|i: int| 0 <= i < up.len() ==> !is_white(#[trigger] up[i]) && up[i] != '(',
    ensures
        trim_of(s) == s,
        lacks(s, '('),
        words_of(s) == seq![s],
        normal_name(s) == up,
        type_parts(s) == Ok::<(Seq<char>, Option<Seq<char>>), Seq<char>>((s, None)),
{
    assert(up.len() == s.len());
    assert forall|i: int| 0 <= i < s.len() implies !is_white(#[trigger] s[i]) && s[i] != '(' by {
        assert(up[i] == upper_char(s[i]));
    }
    law_trim_leaves_the_rest(s);
    lemma_one_word(s);
    assert(s.take(s.len() as int) =~= s);
    lemma_index_is(s, '(', s.len() as int);
    assert(join_of(seq![s], " "@) == s);
}

/// White space and brackets of a text are those of the text in capitals.
proof fn lemma_same_upper_alike(a: Seq<char>, b: Seq<char>)
    requires
        upper(a) == upper(b),
    ensures
        alike(a, b),
    decreases a.len(),
{
    assert(a.len() == upper(a).len() && b.len() == upper(b).len());
    assert forall|i: int| 0 <= i < a.len() implies upper_char(#[trigger] a[i]) == upper_char(b[i]) by {
        assert(upper(a)[i] == upper(b)[i]);
        assert(upper(a)[i] == upper_char(a[i]));
        assert(i < b.len());
        assert(upper(b)[i] == upper_char(b[i]));
    }
    if a.len() > 0 {
        assert(upper_char(a[0]) == upper_char(b[0]));
        if is_white(a[0]) {
            let p = lemma_trim_start(a);
            assert(is_blank(b.take(p))) by {
                assert forall|i: int| 0 <= i < p implies is_white(#[trigger] b.take(p)[i]) by {
                    assert(is_white(a.take(p)[i]));
                    assert(upper_char(a[i]) == upper_char(b[i]));
                }
            }
            if p < a.len() {
                assert(upper_char(a[p]) == upper_char(b[p]));
            }
            lemma_trim_start_is(b, p);
            assert forall|i: int| 0 <= i < a.len() - p implies #[trigger] upper(a.skip(p))[i] == upper(
                b.skip(p),
            )[i] by {
                assert(upper_char(a[p + i]) == upper_char(b[p + i]));
            }
            assert(upper(a.skip(p)) =~= upper(b.skip(p)));
            lemma_same_upper_alike(a.skip(p), b.skip(p));
        } else {
            assert forall|i: int| 0 <= i < a.len() - 1 implies #[trigger] upper(a.drop_first())[i]
                == upper(b.drop_first())[i] by {
                assert(upper_char(a[i + 1]) == upper_char(b[i + 1]));
            }
            assert(upper(a.drop_first()) =~= upper(b.drop_first()));
            lemma_same_upper_alike(a.drop_first(), b.drop_first());
        }
    }
}

/// The letters of the type names.
proof fn lemma_name_letters()
    ensures
        "BOOLEAN"@.len() == 7 && "BOOLEAN"@[0] == 'B' && "BOOLEAN"@[1] == 'O' && "BOOLEAN"@[2] == 'O' && "BOOLEAN"@[3] == 'L' && "BOOLEAN"@[4] == 'E' && "BOOLEAN"@[5] == 'A' && "BOOLEAN"@[6] == 'N',
        "BOOL"@.len() == 4 && "BOOL"@[0] == 'B' && "BOOL"@[1] == 'O' && "BOOL"@[2] == 'O' && "BOOL"@[3] == 'L',
        "TINYINT"@.len() == 7 && "TINYINT"@[0] == 'T' && "TINYINT"@[1] == 'I' && "TINYINT"@[2] == 'N' && "TINYINT"@[3] == 'Y' && "TINYINT"@[4] == 'I' && "TINYINT"@[5] == 'N' && "TINYINT"@[6] == 'T',
        "INT1"@.len() == 4 && "INT1"@[0] == 'I' && "INT1"@[1] == 'N' && "INT1"@[2] == 'T' && "INT1"@[3] == '1',
        "SMALLINT"@.len() == 8 && "SMALLINT"@[0] == 'S' && "SMALLINT"@[1] == 'M' && "SMALLINT"@[2] == 'A' && "SMALLINT"@[3] == 'L' && "SMALLINT"@[4] == 'L' && "SMALLINT"@[5] == 'I' && "SMALLINT"@[6] == 'N' && "SMALLINT"@[7] == 'T',
        "INT2"@.len() == 4 && "INT2"@[0] == 'I' && "INT2"@[1] == 'N' && "INT2"@[2] == 'T' && "INT2"@[3] == '2',
        "INT"@.len() == 3 && "INT"@[0] == 'I' && "INT"@[1] == 'N' && "INT"@[2] == 'T',
        "INTEGER"@.len() == 7 && "INTEGER"@[0] == 'I' && "INTEGER"@[1] == 'N' && "INTEGER"@[2] == 'T' && "INTEGER"@[3] == 'E' && "INTEGER"@[4] == 'G' && "INTEGER"@[5] == 'E' && "INTEGER"@[6] == 'R',
        "INT4"@.len() == 4 && "INT4"@[0] == 'I' && "INT4"@[1] == 'N' && "INT4"@[2] == 'T' && "INT4"@[3] == '4',
        "BIGINT"@.len() == 6 && "BIGINT"@[0] == 'B' && "BIGINT"@[1] == 'I' && "BIGINT"@[2] == 'G' && "BIGINT"@[3] == 'I' && "BIGINT"@[4] == 'N' && "BIGINT"@[5] == 'T',
        "INT8"@.len() == 4 && "INT8"@[0] == 'I' && "INT8"@[1] == 'N' && "INT8"@[2] == 'T' && "INT8"@[3] == '8',
        "INT64"@.len() == 5 && "INT64"@[0] == 'I' && "INT64"@[1] == 'N' && "INT64"@[2] == 'T' && "INT64"@[3] == '6' && "INT64"@[4] == '4',
        "HUGEINT"@.len() == 7 && "HUGEINT"@[0] == 'H' && "HUGEINT"@[1] == 'U' && "HUGEINT"@[2] == 'G' && "HUGEINT"@[3] == 'E' && "HUGEINT"@[4] == 'I' && "HUGEINT"@[5] == 'N' && "HUGEINT"@[6] == 'T',
        "INT128"@.len() == 6 && "INT128"@[0] == 'I' && "INT128"@[1] == 'N' && "INT128"@[2] == 'T' && "INT128"@[3] == '1' && "INT128"@[4] == '2' && "INT128"@[5] == '8',
        "UTINYINT"@.len() == 8 && "UTINYINT"@[0] == 'U' && "UTINYINT"@[1] == 'T' && "UTINYINT"@[2] == 'I' && "UTINYINT"@[3] == 'N' && "UTINYINT"@[4] == 'Y' && "UTINYINT"@[5] == 'I' && "UTINYINT"@[6] == 'N' && "UTINYINT"@[7] == 'T',
        "UINT1"@.len() == 5 && "UINT1"@[0] == 'U' && "UINT1"@[1] == 'I' && "UINT1"@[2] == 'N' && "UINT1"@[3] == 'T' && "UINT1"@[4] == '1',
        "USMALLINT"@.len() == 9 && "USMALLINT"@[0] == 'U' && "USMALLINT"@[1] == 'S' && "USMALLINT"@[2] == 'M' && "USMALLINT"@[3] == 'A' && "USMALLINT"@[4] == 'L' && "USMALLINT"@[5] == 'L' && "USMALLINT"@[6] == 'I' && "USMALLINT"@[7] == 'N' && "USMALLINT"@[8] == 'T',
        "UINT2"@.len() == 5 && "UINT2"@[0] == 'U' && "UINT2"@[1] == 'I' && "UINT2"@[2] == 'N' && "UINT2"@[3] == 'T' && "UINT2"@[4] == '2',
        "UINTEGER"@.len() == 8 && "UINTEGER"@[0] == 'U' && "UINTEGER"@[1] == 'I' && "UINTEGER"@[2] == 'N' && "UINTEGER"@[3] == 'T' && "UINTEGER"@[4] == 'E' && "UINTEGER"@[5] == 'G' && "UINTEGER"@[6] == 'E' && "UINTEGER"@[7] == 'R',
        "UINT4"@.len() == 5 && "UINT4"@[0] == 'U' && "UINT4"@[1] == 'I' && "UINT4"@[2] == 'N' && "UINT4"@[3] == 'T' && "UINT4"@[4] == '4',
        "UBIGINT"@.len() == 7 && "UBIGINT"@[0] == 'U' && "UBIGINT"@[1] == 'B' && "UBIGINT"@[2] == 'I' && "UBIGINT"@[3] == 'G' && "UBIGINT"@[4] == 'I' && "UBIGINT"@[5] == 'N' && "UBIGINT"@[6] == 'T',
        "UINT8"@.len() == 5 && "UINT8"@[0] == 'U' && "UINT8"@[1] == 'I' && "UINT8"@[2] == 'N' && "UINT8"@[3] == 'T' && "UINT8"@[4] == '8',
        "UHUGEINT"@.len() == 8 && "UHUGEINT"@[0] == 'U' && "UHUGEINT"@[1] == 'H' && "UHUGEINT"@[2] == 'U' && "UHUGEINT"@[3] == 'G' && "UHUGEINT"@[4] == 'E' && "UHUGEINT"@[5] == 'I' && "UHUGEINT"@[6] == 'N' && "UHUGEINT"@[7] == 'T',
        "UINT128"@.len() == 7 && "UINT128"@[0] == 'U' && "UINT128"@[1] == 'I' && "UINT128"@[2] == 'N' && "UINT128"@[3] == 'T' && "UINT128"@[4] == '1' && "UINT128"@[5] == '2' && "UINT128"@[6] == '8',
        "REAL"@.len() == 4 && "REAL"@[0] == 'R' && "REAL"@[1] == 'E' && "REAL"@[2] == 'A' && "REAL"@[3] == 'L',
        "FLOAT"@.len() == 5 && "FLOAT"@[0] == 'F' && "FLOAT"@[1] == 'L' && "FLOAT"@[2] == 'O' && "FLOAT"@[3] == 'A' && "FLOAT"@[4] == 'T',
        "FLOAT4"@.len() == 6 && "FLOAT4"@[0] == 'F' && "FLOAT4"@[1] == 'L' && "FLOAT4"@[2] == 'O' && "FLOAT4"@[3] == 'A' && "FLOAT4"@[4] == 'T' && "FLOAT4"@[5] == '4',
        "DOUBLE"@.len() == 6 && "DOUBLE"@[0] == 'D' && "DOUBLE"@[1] == 'O' && "DOUBLE"@[2] == 'U' && "DOUBLE"@[3] == 'B' && "DOUBLE"@[4] == 'L' && "DOUBLE"@[5] == 'E',
        "DOUBLE PRECISION"@.len() == 16 && "DOUBLE PRECISION"@[0] == 'D' && "DOUBLE PRECISION"@[1] == 'O' && "DOUBLE PRECISION"@[2] == 'U' && "DOUBLE PRECISION"@[3] == 'B' && "DOUBLE PRECISION"@[4] == 'L' && "DOUBLE PRECISION"@[5] == 'E' && "DOUBLE PRECISION"@[6] == ' ' && "DOUBLE PRECISION"@[7] == 'P' && "DOUBLE PRECISION"@[8] == 'R' && "DOUBLE PRECISION"@[9] == 'E' && "DOUBLE PRECISION"@[10] == 'C' && "DOUBLE PRECISION"@[11] == 'I' && "DOUBLE PRECISION"@[12] == 'S' && "DOUBLE PRECISION"@[13] == 'I' && "DOUBLE PRECISION"@[14] == 'O' && "DOUBLE PRECISION"@[15] == 'N',
        "FLOAT8"@.len() == 6 && "FLOAT8"@[0] == 'F' && "FLOAT8"@[1] == 'L' && "FLOAT8"@[2] == 'O' && "FLOAT8"@[3] == 'A' && "FLOAT8"@[4] == 'T' && "FLOAT8"@[5] == '8',
        "TEXT"@.len() == 4 && "TEXT"@[0] == 'T' && "TEXT"@[1] == 'E' && "TEXT"@[2] == 'X' && "TEXT"@[3] == 'T',
        "VARCHAR"@.len() == 7 && "VARCHAR"@[0] == 'V' && "VARCHAR"@[1] == 'A' && "VARCHAR"@[2] == 'R' && "VARCHAR"@[3] == 'C' && "VARCHAR"@[4] == 'H' && "VARCHAR"@[5] == 'A' && "VARCHAR"@[6] == 'R',
        "CHAR"@.len() == 4 && "CHAR"@[0] == 'C' && "CHAR"@[1] == 'H' && "CHAR"@[2] == 'A' && "CHAR"@[3] == 'R',
        "CHARACTER"@.len() == 9 && "CHARACTER"@[0] == 'C' && "CHARACTER"@[1] == 'H' && "CHARACTER"@[2] == 'A' && "CHARACTER"@[3] == 'R' && "CHARACTER"@[4] == 'A' && "CHARACTER"@[5] == 'C' && "CHARACTER"@[6] == 'T' && "CHARACTER"@[7] == 'E' && "CHARACTER"@[8] == 'R',
        "STRING"@.len() == 6 && "STRING"@[0] == 'S' && "STRING"@[1] == 'T' && "STRING"@[2] == 'R' && "STRING"@[3] == 'I' && "STRING"@[4] == 'N' && "STRING"@[5] == 'G',
        "CLOB"@.len() == 4 && "CLOB"@[0] == 'C' && "CLOB"@[1] == 'L' && "CLOB"@[2] == 'O' && "CLOB"@[3] == 'B',
        "BLOB"@.len() == 4 && "BLOB"@[0] == 'B' && "BLOB"@[1] == 'L' && "BLOB"@[2] == 'O' && "BLOB"@[3] == 'B',
        "BYTEA"@.len() == 5 && "BYTEA"@[0] == 'B' && "BYTEA"@[1] == 'Y' && "BYTEA"@[2] == 'T' && "BYTEA"@[3] == 'E' && "BYTEA"@[4] == 'A',
        "BYTES"@.len() == 5 && "BYTES"@[0] == 'B' && "BYTES"@[1] == 'Y' && "BYTES"@[2] == 'T' && "BYTES"@[3] == 'E' && "BYTES"@[4] == 'S',
        "BINARY"@.len() == 6 && "BINARY"@[0] == 'B' && "BINARY"@[1] == 'I' && "BINARY"@[2] == 'N' && "BINARY"@[3] == 'A' && "BINARY"@[4] == 'R' && "BINARY"@[5] == 'Y',
        "VARBINARY"@.len() == 9 && "VARBINARY"@[0] == 'V' && "VARBINARY"@[1] == 'A' && "VARBINARY"@[2] == 'R' && "VARBINARY"@[3] == 'B' && "VARBINARY"@[4] == 'I' && "VARBINARY"@[5] == 'N' && "VARBINARY"@[6] == 'A' && "VARBINARY"@[7] == 'R' && "VARBINARY"@[8] == 'Y',
        "DATE"@.len() == 4 && "DATE"@[0] == 'D' && "DATE"@[1] == 'A' && "DATE"@[2] == 'T' && "DATE"@[3] == 'E',
        "TIME"@.len() == 4 && "TIME"@[0] == 'T' && "TIME"@[1] == 'I' && "TIME"@[2] == 'M' && "TIME"@[3] == 'E',
        "TIMESTAMP"@.len() == 9 && "TIMESTAMP"@[0] == 'T' && "TIMESTAMP"@[1] == 'I' && "TIMESTAMP"@[2] == 'M' && "TIMESTAMP"@[3] == 'E' && "TIMESTAMP"@[4] == 'S' && "TIMESTAMP"@[5] == 'T' && "TIMESTAMP"@[6] == 'A' && "TIMESTAMP"@[7] == 'M' && "TIMESTAMP"@[8] == 'P',
        "DATETIME"@.len() == 8 && "DATETIME"@[0] == 'D' && "DATETIME"@[1] == 'A' && "DATETIME"@[2] == 'T' && "DATETIME"@[3] == 'E' && "DATETIME"@[4] == 'T' && "DATETIME"@[5] == 'I' && "DATETIME"@[6] == 'M' && "DATETIME"@[7] == 'E',
        "TIMESTAMPTZ"@.len() == 11 && "TIMESTAMPTZ"@[0] == 'T' && "TIMESTAMPTZ"@[1] == 'I' && "TIMESTAMPTZ"@[2] == 'M' && "TIMESTAMPTZ"@[3] == 'E' && "TIMESTAMPTZ"@[4] == 'S' && "TIMESTAMPTZ"@[5] == 'T' && "TIMESTAMPTZ"@[6] == 'A' && "TIMESTAMPTZ"@[7] == 'M' && "TIMESTAMPTZ"@[8] == 'P' && "TIMESTAMPTZ"@[9] == 'T' && "TIMESTAMPTZ"@[10] == 'Z',
        "TIMESTAMP_TZ"@.len() == 12 && "TIMESTAMP_TZ"@[0] == 'T' && "TIMESTAMP_TZ"@[1] == 'I' && "TIMESTAMP_TZ"@[2] == 'M' && "TIMESTAMP_TZ"@[3] == 'E' && "TIMESTAMP_TZ"@[4] == 'S' && "TIMESTAMP_TZ"@[5] == 'T' && "TIMESTAMP_TZ"@[6] == 'A' && "TIMESTAMP_TZ"@[7] == 'M' && "TIMESTAMP_TZ"@[8] == 'P' && "TIMESTAMP_TZ"@[9] == '_' && "TIMESTAMP_TZ"@[10] == 'T' && "TIMESTAMP_TZ"@[11] == 'Z',
        "TIMESTAMP WITH TIME ZONE"@.len() == 24 && "TIMESTAMP WITH TIME ZONE"@[0] == 'T' && "TIMESTAMP WITH TIME ZONE"@[1] == 'I' && "TIMESTAMP WITH TIME ZONE"@[2] == 'M' && "TIMESTAMP WITH TIME ZONE"@[3] == 'E' && "TIMESTAMP WITH TIME ZONE"@[4] == 'S' && "TIMESTAMP WITH TIME ZONE"@[5] == 'T' && "TIMESTAMP WITH TIME ZONE"@[6] == 'A' && "TIMESTAMP WITH TIME ZONE"@[7] == 'M' && "TIMESTAMP WITH TIME ZONE"@[8] == 'P' && "TIMESTAMP WITH TIME ZONE"@[9] == ' ' && "TIMESTAMP WITH TIME ZONE"@[10] == 'W' && "TIMESTAMP WITH TIME ZONE"@[11] == 'I' && "TIMESTAMP WITH TIME ZONE"@[12] == 'T' && "TIMESTAMP WITH TIME ZONE"@[13] == 'H' && "TIMESTAMP WITH TIME ZONE"@[14] == ' ' && "TIMESTAMP WITH TIME ZONE"@[15] == 'T' && "TIMESTAMP WITH TIME ZONE"@[16] == 'I' && "TIMESTAMP WITH TIME ZONE"@[17] == 'M' && "TIMESTAMP WITH TIME ZONE"@[18] == 'E' && "TIMESTAMP WITH TIME ZONE"@[19] == ' ' && "TIMESTAMP WITH TIME ZONE"@[20] == 'Z' && "TIMESTAMP WITH TIME ZONE"@[21] == 'O' && "TIMESTAMP WITH TIME ZONE"@[22] == 'N' && "TIMESTAMP WITH TIME ZONE"@[23] == 'E',
        "INTERVAL"@.len() == 8 && "INTERVAL"@[0] == 'I' && "INTERVAL"@[1] == 'N' && "INTERVAL"@[2] == 'T' && "INTERVAL"@[3] == 'E' && "INTERVAL"@[4] == 'R' && "INTERVAL"@[5] == 'V' && "INTERVAL"@[6] == 'A' && "INTERVAL"@[7] == 'L',
        "UUID"@.len() == 4 && "UUID"@[0] == 'U' && "UUID"@[1] == 'U' && "UUID"@[2] == 'I' && "UUID"@[3] == 'D',
        "DECIMAL"@.len() == 7 && "DECIMAL"@[0] == 'D' && "DECIMAL"@[1] == 'E' && "DECIMAL"@[2] == 'C' && "DECIMAL"@[3] == 'I' && "DECIMAL"@[4] == 'M' && "DECIMAL"@[5] == 'A' && "DECIMAL"@[6] == 'L',
        "NUMERIC"@.len() == 7 && "NUMERIC"@[0] == 'N' && "NUMERIC"@[1] == 'U' && "NUMERIC"@[2] == 'M' && "NUMERIC"@[3] == 'E' && "NUMERIC"@[4] == 'R' && "NUMERIC"@[5] == 'I' && "NUMERIC"@[6] == 'C',
{
    reveal_strlit("BOOLEAN");
    reveal_strlit("BOOL");
    reveal_strlit("TINYINT");
    reveal_strlit("INT1");
    reveal_strlit("SMALLINT");
    reveal_strlit("INT2");
    reveal_strlit("INT");
    reveal_strlit("INTEGER");
    reveal_strlit("INT4");
    reveal_strlit("BIGINT");
    reveal_strlit("INT8");
    reveal_strlit("INT64");
    reveal_strlit("HUGEINT");
    reveal_strlit("INT128");
    reveal_strlit("UTINYINT");
    reveal_strlit("UINT1");
    reveal_strlit("USMALLINT");
    reveal_strlit("UINT2");
    reveal_strlit("UINTEGER");
    reveal_strlit("UINT4");
    reveal_strlit("UBIGINT");
    reveal_strlit("UINT8");
    reveal_strlit("UHUGEINT");
    reveal_strlit("UINT128");
    reveal_strlit("REAL");
    reveal_strlit("FLOAT");
    reveal_strlit("FLOAT4");
    reveal_strlit("DOUBLE");
    reveal_strlit("DOUBLE PRECISION");
    reveal_strlit("FLOAT8");
    reveal_strlit("TEXT");
    reveal_strlit("VARCHAR");
    reveal_strlit("CHAR");
    reveal_strlit("CHARACTER");
    reveal_strlit("STRING");
    reveal_strlit("CLOB");
    reveal_strlit("BLOB");
    reveal_strlit("BYTEA");
    reveal_strlit("BYTES");
    reveal_strlit("BINARY");
    reveal_strlit("VARBINARY");
    reveal_strlit("DATE");
    reveal_strlit("TIME");
    reveal_strlit("TIMESTAMP");
    reveal_strlit("DATETIME");
    reveal_strlit("TIMESTAMPTZ");
    reveal_strlit("TIMESTAMP_TZ");
    reveal_strlit("TIMESTAMP WITH TIME ZONE");
    reveal_strlit("INTERVAL");
    reveal_strlit("UUID");
    reveal_strlit("DECIMAL");
    reveal_strlit("NUMERIC");
}

/// DECIMAL and NUMERIC are no plain type names.
proof fn lemma_decimal_is_not_plain()
    ensures
        named_type("DECIMAL"@) is None,
        named_type("NUMERIC"@) is None,
{
    lemma_name_letters();
}

proof fn lemma_decimal_heads(head: Seq<char>)
    requires
        upper(head) == "DECIMAL"@ || upper(head) == "NUMERIC"@,
    ensures
        head.len() == 7,
        lacks(head, '('),
        trim_of(head) == head,
        words_of(head) == seq![head],
        normal_name(head) == upper(head),
        type_parts(head) == Ok::<(Seq<char>, Option<Seq<char>>), Seq<char>>((head, None)),
        named_type(upper(head)) is None,
{
    lemma_decimal_is_not_plain();
    reveal_strlit("DECIMAL");
    reveal_strlit("NUMERIC");
    assert(upper(head).len() == head.len());
    lemma_plain_name(head, upper(head));
}

/// The type of a DECIMAL with arguments is what the arguments say.
proof fn lemma_decimal_arguments(head: Seq<char>, inside: Seq<char>)
    requires
        upper(head) == "DECIMAL"@ || upper(head) == "NUMERIC"@,
    ensures
        sql_type_of(head + "("@ + inside + ")"@) == (match decimal_shape(Some(trim_of(inside))) {
            Ok(shape) => Ok::<TypeModel, Seq<char>>(TypeModel::Decimal(shape)),
            Err(e) => Err(e),
        }),
{
    reveal_strlit("(");
    reveal_strlit(")");
    lemma_decimal_heads(head);
    let none = Seq::<char>::empty();
    let text = head + "("@ + inside + ")"@;
    assert(text =~= with_argument(head, inside, none));
    lemma_argument_parts(head, inside, none);
    assert(words_of(none) =~= Seq::<Seq<char>>::empty());
    assert(words_of(head) + words_of(none) =~= seq![head]);
    let base = type_parts(trim_of(text))->Ok_0.0;
    assert(words_of(base) == seq![head]);
    assert(join_of(seq![head], " "@) == head);
    assert(normal_name(base) == upper(head));
}

proof fn lemma_digits_stand(s: Seq<char>)
    requires
        s.len() > 0,
        all_digits(s),
    ensures
        trim_of(s) == s,
        lacks(s, ','),
        number_of(s) <= 255 ==> small_number(s) == Some(number_of(s) as u8),
{
    assert(is_digit(s[0]));
    assert(is_digit(s[s.len() - 1]));
    law_trim_leaves_the_rest(s);
}

/// "DECIMAL(w,s)", in any case and with any white space behind the comma, is the decimal
/// type whose width is the number that w writes and whose scale is the number that s
/// writes.
pub proof fn law_decimal_width_and_scale(head: Seq<char>, w: Seq<char>, gap: Seq<char>, s: Seq<char>)
    requires
        upper(head) == "DECIMAL"@ || upper(head) == "NUMERIC"@,
        w.len() > 0,
        s.len() > 0,
        all_digits(w),
        all_digits(s),
        is_blank(gap),
        number_of(w) <= 255,
        number_of(s) <= 255,
    ensures
        sql_type_of(head + "("@ + w + ","@ + gap + s + ")"@) matches Ok(TypeModel::Decimal(shape))
            && shape.width == number_of(w) && shape.scale == number_of(s),
        sql_type_of(head + "("@ + w + ","@ + s + ")"@) matches Ok(TypeModel::Decimal(shape))
            && shape.width == number_of(w) && shape.scale == number_of(s),
{
    lemma_decimal_pair(head, w, gap, s);
    lemma_decimal_pair(head, w, Seq::empty(), s);
    assert(head + "("@ + w + ","@ + Seq::<char>::empty() + s + ")"@ =~= head + "("@ + w + ","@ + s
        + ")"@);
}

proof fn lemma_decimal_pair(head: Seq<char>, w: Seq<char>, gap: Seq<char>, s: Seq<char>)
    requires
        upper(head) == "DECIMAL"@ || upper(head) == "NUMERIC"@,
        w.len() > 0,
        s.len() > 0,
        all_digits(w),
        all_digits(s),
        is_blank(gap),
        number_of(w) <= 255,
        number_of(s) <= 255,
    ensures
        sql_type_of(head + "("@ + w + ","@ + gap + s + ")"@) matches Ok(TypeModel::Decimal(shape))
            && shape.width == number_of(w) && shape.scale == number_of(s),
{
    reveal_strlit(",");
    let t = gap + s;
    let inside = w + ","@ + t;
    assert(head + "("@ + w + ","@ + gap + s + ")"@ =~= head + "("@ + inside + ")"@);
    lemma_digits_stand(w);
    lemma_digits_stand(s);
    assert(is_digit(w[0]) && is_digit(s[s.len() - 1]) && is_digit(s[0]));
    assert(inside[0] == w[0] && inside.last() == s[s.len() - 1]);
    law_trim_leaves_the_rest(inside);
    assert(t.take(gap.len() as int) =~= gap);
    assert(t[gap.len() as int] == s[0]);
    lemma_trim_start_is(t, gap.len() as int);
    assert(t.skip(gap.len() as int) =~= s);
    assert(trim_of(t) == trim_end_of(s));
    lemma_trim_end_is(s, s.len() as int);
    assert(s.take(s.len() as int) =~= s);
    assert forall|i: int| 0 <= i < t.len() implies #[trigger] t[i] != ',' by {
        if i < gap.len() {
            assert(is_white(gap[i]));
        } else {
            assert(is_digit(s[i - gap.len()]));
        }
    }
    let parts = seq![w, t];
    law_join_sets_separators(seq![w], seq![t], seq![',']);
    assert(seq![w] + seq![t] =~= parts);
    assert(join_of(seq![w], seq![',']) == w);
    assert(join_of(seq![t], seq![',']) == t);
    assert(","@ =~= seq![',']);
    assert(join_of(parts, seq![',']) == inside);
    assert(lacks(parts[0], ',') && lacks(parts[1], ','));
    law_join_splits_again(parts, ',');
    assert(type_args(inside)[0] == w);
    assert(type_args(inside)[1] == s);
    lemma_decimal_arguments(head, inside);
}

/// "DECIMAL(w)" has the width that w writes and no digits behind the point, and DECIMAL
/// alone has eighteen digits, three of them behind the point.
pub proof fn law_decimal_defaults(head: Seq<char>, w: Seq<char>)
    requires
        upper(head) == "DECIMAL"@ || upper(head) == "NUMERIC"@,
        w.len() > 0,
        all_digits(w),
        number_of(w) <= 255,
    ensures
        sql_type_of(head + "("@ + w + ")"@) matches Ok(TypeModel::Decimal(shape)) && shape.width
            == number_of(w) && shape.scale == 0,
        sql_type_of(head) matches Ok(TypeModel::Decimal(shape)) && shape.width == 18 && shape.scale
            == 3,
{
    lemma_digits_stand(w);
    lemma_decimal_heads(head);
    let parts = seq![w];
    assert(lacks(parts[0], ','));
    law_join_splits_again(parts, ',');
    assert(join_of(parts, seq![',']) == w);
    assert(type_args(w)[0] == w);
    lemma_decimal_arguments(head, w);
}

/// A DECIMAL whose width or scale is no number up to 255 is refused, and so is one with
/// more than two arguments.
pub proof fn law_decimal_refusals(head: Seq<char>, args: Seq<Seq<char>>)
    requires
        upper(head) == "DECIMAL"@ || upper(head) == "NUMERIC"@,
        args.len() > 0,
        forall|k: int|
            0 <= k < args.len() ==> lacks(#[trigger] args[k], ',') && args[k].len() > 0 && !is_white(
                args[k][0],
            ) && !is_white(args[k].last()),
        args.len() > 2 || exists|k: int|
            0 <= k < args.len() && !(all_digits(#[trigger] args[k]) && number_of(args[k]) <= 255)
                && args[k][0] != '+',
    ensures
        sql_type_of(head + "("@ + join_of(args, ","@) + ")"@) is Err,
{
    reveal_strlit(",");
    assert(","@ =~= seq![',']);
    let inside = join_of(args, seq![',']);
    law_join_splits_again(args, ',');
    lemma_join_ends(args, seq![',']);
    assert(args[0].len() > 0 && args[args.len() - 1].len() > 0);
    law_trim_leaves_the_rest(inside);
    assert forall|k: int| 0 <= k < args.len() implies type_args(inside)[k] == #[trigger] args[k] by {
        law_trim_leaves_the_rest(args[k]);
    }
    assert(type_args(inside) =~= args);
    lemma_decimal_arguments(head, inside);
}

proof fn lemma_join_ends(parts: Seq<Seq<char>>, sep: Seq<char>)
    requires
        parts.len() > 0,
        forall|k: int| 0 <= k < parts.len() ==> (#[trigger] parts[k]).len() > 0,
    ensures
        join_of(parts, sep).len() > 0,
        join_of(parts, sep)[0] == parts[0][0],
        join_of(parts, sep).last() == parts[parts.len() - 1].last(),
    decreases parts.len(),
{
    assert(parts[parts.len() - 1].len() > 0);
    if parts.len() > 1 {
        let front = parts.drop_last();
        assert forall|k: int| 0 <= k < front.len() implies (#[trigger] front[k]).len() > 0 by {
            assert(parts[k].len() > 0);
        }
        lemma_join_ends(front, sep);
    }
}

/// A name of several words.
proof fn lemma_spaced_name(s: Seq<char>, words: Seq<Seq<char>>, up: Seq<char>)
    requires
        s.len() > 0,
        upper(s) == up,
        words.len() > 0,
        up == join_of(words, " "@),
        forall|k: int, i: int|
            0 <= k < words.len() && 0 <= i < words[k].len() ==> !is_white(#[trigger] words[k][i])
                && !is_lower(words[k][i]),
        forall|k: int| 0 <= k < words.len() ==> (#[trigger] words[k]).len() > 0,
        lacks(up, '('),
    ensures
        normal_name(s) == up,
        type_parts(s) == Ok::<(Seq<char>, Option<Seq<char>>), Seq<char>>((s, None)),
{
    assert(up.len() == s.len());
    assert forall|i: int| 0 <= i < s.len() implies #[trigger] s[i] != '(' by {
        assert(up[i] == upper_char(s[i]));
    }
    assert(s.take(s.len() as int) =~= s);
    lemma_index_is(s, '(', s.len() as int);
    lemma_words_of_join(words);
    assert(upper(up) =~= upper(s)) by {
        assert forall|i: int| 0 <= i < s.len() implies #[trigger] upper(up)[i] == upper(s)[i] by {
            assert(up[i] == upper(s)[i]);
        }
    }
    lemma_same_upper_alike(s, up);
    lemma_alike_words(s, up);
    lemma_upper_join(words_of(s), words_of(up), " "@);
    assert(upper(up) =~= up);
}

/// Joined words are read again.
proof fn lemma_words_of_join(words: Seq<Seq<char>>)
    requires
        words.len() > 0,
        forall|k: int, i: int|
            0 <= k < words.len() && 0 <= i < words[k].len() ==> !is_white(#[trigger] words[k][i])
                && !is_lower(words[k][i]),
        forall|k: int| 0 <= k < words.len() ==> (#[trigger] words[k]).len() > 0,
    ensures
        words_of(join_of(words, " "@)) == words,
    decreases words.len(),
{
    reveal_strlit(" ");
    let last = words[words.len() - 1];
    assert(last.len() > 0);
    lemma_one_word(last);
    if words.len() == 1 {
        assert(words =~= seq![last]);
    } else {
        let front = words.drop_last();
        assert forall|k: int, i: int| 0 <= k < front.len() && 0 <= i < front[k].len() implies !is_white(
            #[trigger] front[k][i],
        ) && !is_lower(front[k][i]) by {
            assert(words[k][i] == front[k][i]);
        }
        assert forall|k: int| 0 <= k < front.len() implies (#[trigger] front[k]).len() > 0 by {
            assert(words[k].len() > 0);
        }
        lemma_words_of_join(front);
        assert(" "@ =~= seq![' ']);
        law_words_stand_between_white_space(join_of(front, " "@), ' ', last);
        assert(front + seq![last] =~= words);
    }
}

/// Every plain type has its names, in any case.
pub proof fn law_type_names(text: Seq<char>)
    ensures
        ({
            let up = upper(trim_of(text));
            &&& (up == "BOOLEAN"@ || up == "BOOL"@) ==> sql_type_of(text) == Ok::<TypeModel, Seq<char>>(TypeModel::Boolean)
            &&& (up == "TINYINT"@ || up == "INT1"@) ==> sql_type_of(text) == Ok::<TypeModel, Seq<char>>(TypeModel::Int8)
            &&& (up == "SMALLINT"@ || up == "INT2"@) ==> sql_type_of(text) == Ok::<TypeModel, Seq<char>>(TypeModel::Int16)
            &&& (up == "INT"@ || up == "INTEGER"@ || up == "INT4"@) ==> sql_type_of(text) == Ok::<TypeModel, Seq<char>>(TypeModel::Int32)
            &&& (up == "BIGINT"@ || up == "INT8"@ || up == "INT64"@) ==> sql_type_of(text) == Ok::<TypeModel, Seq<char>>(TypeModel::Int64)
            &&& (up == "HUGEINT"@ || up == "INT128"@) ==> sql_type_of(text) == Ok::<TypeModel, Seq<char>>(TypeModel::Hugeint)
            &&& (up == "UTINYINT"@ || up == "UINT1"@) ==> sql_type_of(text) == Ok::<TypeModel, Seq<char>>(TypeModel::Uint8)
            &&& (up == "USMALLINT"@ || up == "UINT2"@) ==> sql_type_of(text) == Ok::<TypeModel, Seq<char>>(TypeModel::Uint16)
            &&& (up == "UINTEGER"@ || up == "UINT4"@) ==> sql_type_of(text) == Ok::<TypeModel, Seq<char>>(TypeModel::Uint32)
            &&& (up == "UBIGINT"@ || up == "UINT8"@) ==> sql_type_of(text) == Ok::<TypeModel, Seq<char>>(TypeModel::Uint64)
            &&& (up == "UHUGEINT"@ || up == "UINT128"@) ==> sql_type_of(text) == Ok::<TypeModel, Seq<char>>(TypeModel::Uhugeint)
            &&& (up == "REAL"@ || up == "FLOAT"@ || up == "FLOAT4"@) ==> sql_type_of(text) == Ok::<TypeModel, Seq<char>>(TypeModel::Float32)
            &&& (up == "DOUBLE"@ || up == "DOUBLE PRECISION"@ || up == "FLOAT8"@) ==> sql_type_of(text) == Ok::<TypeModel, Seq<char>>(TypeModel::Float64)
            &&& (up == "TEXT"@ || up == "VARCHAR"@ || up == "CHAR"@ || up == "CHARACTER"@ || up == "STRING"@ || up == "CLOB"@) ==> sql_type_of(text) == Ok::<TypeModel, Seq<char>>(TypeModel::Text)
            &&& (up == "BLOB"@ || up == "BYTEA"@ || up == "BYTES"@ || up == "BINARY"@ || up == "VARBINARY"@) ==> sql_type_of(text) == Ok::<TypeModel, Seq<char>>(TypeModel::Blob)
            &&& (up == "DATE"@) ==> sql_type_of(text) == Ok::<TypeModel, Seq<char>>(TypeModel::Date)
            &&& (up == "TIME"@) ==> sql_type_of(text) == Ok::<TypeModel, Seq<char>>(TypeModel::Time)
            &&& (up == "TIMESTAMP"@ || up == "DATETIME"@) ==> sql_type_of(text) == Ok::<TypeModel, Seq<char>>(TypeModel::Timestamp)
            &&& (up == "TIMESTAMPTZ"@ || up == "TIMESTAMP_TZ"@ || up == "TIMESTAMP WITH TIME ZONE"@) ==> sql_type_of(text) == Ok::<TypeModel, Seq<char>>(TypeModel::Timestamptz)
            &&& (up == "INTERVAL"@) ==> sql_type_of(text) == Ok::<TypeModel, Seq<char>>(TypeModel::Interval)
            &&& (up == "UUID"@) ==> sql_type_of(text) == Ok::<TypeModel, Seq<char>>(TypeModel::Uuid)
        }),
{
    let s = trim_of(text);
    let up = upper(s);
    assert(s.len() == up.len());
    lemma_name_letters();
    if up == "BOOLEAN"@ || up == "BOOL"@ || up == "TINYINT"@ || up == "INT1"@ || up == "SMALLINT"@ || up == "INT2"@ || up == "INT"@ || up == "INTEGER"@ || up == "INT4"@ || up == "BIGINT"@ || up == "INT8"@ || up == "INT64"@ || up == "HUGEINT"@ || up == "INT128"@ || up == "UTINYINT"@ || up == "UINT1"@ || up == "USMALLINT"@ || up == "UINT2"@ || up == "UINTEGER"@ || up == "UINT4"@ || up == "UBIGINT"@ || up == "UINT8"@ || up == "UHUGEINT"@ || up == "UINT128"@ || up == "REAL"@ || up == "FLOAT"@ || up == "FLOAT4"@ || up == "DOUBLE"@ || up == "FLOAT8"@ || up == "TEXT"@ || up == "VARCHAR"@ || up == "CHAR"@ || up == "CHARACTER"@ || up == "STRING"@ || up == "CLOB"@ || up == "BLOB"@ || up == "BYTEA"@ || up == "BYTES"@ || up == "BINARY"@ || up == "VARBINARY"@ || up == "DATE"@ || up == "TIME"@ || up == "TIMESTAMP"@ || up == "DATETIME"@ || up == "TIMESTAMPTZ"@ || up == "TIMESTAMP_TZ"@ || up == "INTERVAL"@ || up == "UUID"@ {
        assert forall|i: int| 0 <= i < up.len() implies !is_white(#[trigger] up[i]) && up[i] != '(' by {
        }
        lemma_plain_name(s, up);
    }
    if up == "DOUBLE PRECISION"@ {
        reveal_strlit("PRECISION");
        reveal_strlit(" ");
        let words = seq!["DOUBLE"@, "PRECISION"@];
        law_join_sets_separators(words.take(1), words.skip(1), " "@);
        assert(words.take(1) + words.skip(1) =~= words);
        assert(up =~= "DOUBLE"@ + " "@ + "PRECISION"@);
        lemma_spaced_name(s, words, up);
    }
    if up == "TIMESTAMP WITH TIME ZONE"@ {
        reveal_strlit("WITH");
        reveal_strlit("ZONE");
        reveal_strlit(" ");
        let words = seq!["TIMESTAMP"@, "WITH"@, "TIME"@, "ZONE"@];
        assert(words.drop_last().drop_last().drop_last() =~= seq!["TIMESTAMP"@]);
        assert(join_of(seq!["TIMESTAMP"@], " "@) == "TIMESTAMP"@);
        assert(join_of(words.drop_last().drop_last(), " "@) == "TIMESTAMP"@ + " "@ + "WITH"@);
        assert(join_of(words.drop_last(), " "@) == "TIMESTAMP"@ + " "@ + "WITH"@ + " "@ + "TIME"@);
        assert(up =~= "TIMESTAMP"@ + " "@ + "WITH"@ + " "@ + "TIME"@ + " "@ + "ZONE"@);
        lemma_spaced_name(s, words, up);
    }
}

/// The names that the lenient reading knows mean to it what they mean to the strict one,
/// but for FLOAT, which it takes for the double type.
pub proof fn law_lenient_names(up: Seq<char>)
    ensures
        common_type(up) is Some && up != "FLOAT"@ ==> common_type(up) == named_type(up),
        common_type("FLOAT"@) == Some(TypeModel::Float64),
        named_type("FLOAT"@) == Some(TypeModel::Float32),
        common_type(up) is Some <==> up == "INT"@ || up == "INTEGER"@ || up == "INT4"@ || up == "BIGINT"@ || up == "INT8"@ || up == "SMALLINT"@ || up == "INT2"@ || up == "TINYINT"@ || up == "UBIGINT"@ || up == "UINTEGER"@ || up == "USMALLINT"@ || up == "UTINYINT"@ || up == "REAL"@ || up == "FLOAT4"@ || up == "DOUBLE"@ || up == "FLOAT"@ || up == "FLOAT8"@ || up == "DOUBLE PRECISION"@ || up == "BOOL"@ || up == "BOOLEAN"@ || up == "TEXT"@ || up == "STRING"@ || up == "VARCHAR"@ || up == "CHAR"@ || up == "BLOB"@ || up == "BYTEA"@ || up == "BYTES"@ || up == "DATE"@ || up == "TIME"@ || up == "TIMESTAMP"@ || up == "DATETIME"@ || up == "TIMESTAMPTZ"@ || up == "UUID"@,
        named_type(up) is Some <==> up == "BOOLEAN"@ || up == "BOOL"@ || up == "TINYINT"@ || up == "INT1"@ || up == "SMALLINT"@ || up == "INT2"@ || up == "INT"@ || up == "INTEGER"@ || up == "INT4"@ || up == "BIGINT"@ || up == "INT8"@ || up == "INT64"@ || up == "HUGEINT"@ || up == "INT128"@ || up == "UTINYINT"@ || up == "UINT1"@ || up == "USMALLINT"@ || up == "UINT2"@ || up == "UINTEGER"@ || up == "UINT4"@ || up == "UBIGINT"@ || up == "UINT8"@ || up == "UHUGEINT"@ || up == "UINT128"@ || up == "REAL"@ || up == "FLOAT"@ || up == "FLOAT4"@ || up == "DOUBLE"@ || up == "DOUBLE PRECISION"@ || up == "FLOAT8"@ || up == "TEXT"@ || up == "VARCHAR"@ || up == "CHAR"@ || up == "CHARACTER"@ || up == "STRING"@ || up == "CLOB"@ || up == "BLOB"@ || up == "BYTEA"@ || up == "BYTES"@ || up == "BINARY"@ || up == "VARBINARY"@ || up == "DATE"@ || up == "TIME"@ || up == "TIMESTAMP"@ || up == "DATETIME"@ || up == "TIMESTAMPTZ"@ || up == "TIMESTAMP_TZ"@ || up == "TIMESTAMP WITH TIME ZONE"@ || up == "INTERVAL"@ || up == "UUID"@,
{
    lemma_name_letters();
}

/// The lenient reading takes the name in front of an argument list.
pub proof fn law_bare_type_is_the_name(head: Seq<char>, inside: Seq<char>)
    requires
        head.len() > 0,
        lacks(head, '('),
        !is_white(head[0]),
        !is_white(head.last()),
    ensures
        bare_type(head) == head,
        bare_type(head + "("@ + inside) == head,
{
    law_trim_leaves_the_rest(head);
    assert(head.take(head.len() as int) =~= head);
    lemma_index_is(head, '(', head.len() as int);
    reveal_strlit("(");
    let text = head + "("@ + inside;
    assert(text[0] == head[0]);
    assert(text.skip(0) =~= text);
    lemma_trim_start_is(text, 0);
    let q = lemma_trim_end(text);
    let n = head.len() as int;
    if q <= n {
        assert(text.skip(q)[n - q] == text[n]);
        assert(text[n] == '(');
    }
    let s = trim_of(text);
    assert(s.take(n) =~= head);
    assert(s[n] == '(');
    lemma_index_is(s, '(', n);
    assert(s.subrange(0, n) =~= head);
}

/// A literal is handed on as the value that it writes: whole numbers in 64 bits, texts and
/// bytes as they are. An expression is refused.
pub proof fn law_literal_is_its_value(lit: ValueLiteral)
    ensures
        match (lit, literal_value(lit)) {
            (ValueLiteral::Null, Ok(ValueModel::Null)) => true,
            (ValueLiteral::Integer(n), Ok(ValueModel::Int64(m))) => m == n,
            (ValueLiteral::Float(f), Ok(ValueModel::Float64(g))) => g.bits == f.bits && g.text
                == f.text@ && g.literal == f.literal@,
            (ValueLiteral::Text(s), Ok(ValueModel::Text(r))) => r == s@,
            (ValueLiteral::Blob(b), Ok(ValueModel::Blob(r))) => r == b@,
            (ValueLiteral::Raw(expr), Err(e)) => has_infix(e, "`"@ + expr@ + "`"@),
            _ => false,
        },
{
    if let ValueLiteral::Raw(expr) = lit {
        reveal_strlit("`");
        reveal_strlit("unsupported expression `");
        reveal_strlit("unsupported expression ");
        reveal_strlit(
            "` in VALUES tuple (only literals NULL/int/float/'string'/X'hex' are routed to the extension)",
        );
        reveal_strlit(
            " in VALUES tuple (only literals NULL/int/float/'string'/X'hex' are routed to the extension)",
        );
        let a = "unsupported expression "@;
        let b =
            " in VALUES tuple (only literals NULL/int/float/'string'/X'hex' are routed to the extension)"@;
        let p = "`"@ + expr@ + "`"@;
        law_infix(a, p, b);
        assert(literal_value(lit)->Err_0 =~= a + p + b);
    }
}

/// The texts of the refusals of a type.
pub proof fn law_type_refusal_texts(head: Seq<char>, inside: Seq<char>, blank: Seq<char>)
    requires
        head.len() > 0,
        !is_white(head[0]),
        lacks(head, '('),
        lacks(head, ')'),
        lacks(inside, ')'),
        !is_white((head + seq!['('] + inside).last()),
        is_blank(blank),
    ensures
        sql_type_of(head + seq!['('] + inside) == Err::<TypeModel, Seq<char>>(
            "unbalanced parentheses in type '"@ + (head + seq!['('] + inside) + "'"@,
        ),
        sql_type_of(blank) == Err::<TypeModel, Seq<char>>("empty type text"@),
{
    let text = head + seq!['('] + inside;
    assert(text[0] == head[0]);
    law_trim_leaves_the_rest(text);
    let n = head.len() as int;
    assert(text[n] == '(');
    assert(text.take(n) =~= head);
    lemma_index_is(text, '(', n);
    lemma_last_index(text, ')');
    let k = last_index_of(text, ')');
    if k >= 0 {
        assert(text[k] == ')');
        if k < n {
            assert(head[k] == ')');
        } else if k > n {
            assert(inside[k - n - 1] == ')');
        }
    }
    let p = lemma_trim_start(blank);
    if p < blank.len() {
        assert(is_white(blank[p]));
    }
    assert(trim_of(blank).len() == 0);
}

/// A name that is no type is refused with the name in capitals.
pub proof fn law_unknown_type_text(name: Seq<char>)
    requires
        name.len() > 0,
        forall|i: int| 0 <= i < name.len() ==> !is_white(#[trigger] name[i]) && name[i] != '(',
        named_type(upper(name)) is None,
        upper(name) != "DECIMAL"@,
        upper(name) != "NUMERIC"@,
    ensures
        sql_type_of(name) == Err::<TypeModel, Seq<char>>(
            "unrecognized SQL type '"@ + upper(name)
                + "' (add a mapping in sql_type_to_extension_logical if the storage backend supports it)"@,
        ),
{
    assert forall|i: int| 0 <= i < upper(name).len() implies !is_white(#[trigger] upper(name)[i])
        && upper(name)[i] != '(' by {
        assert(!is_white(name[i]) && name[i] != '(');
        assert(upper(name)[i] == upper_char(name[i]));
    }
    lemma_plain_name(name, upper(name));
}

/// The refusal of a DECIMAL quotes the argument that is no small number: the width where it
/// is the width, and else the scale.
pub proof fn law_decimal_refusal_texts(head: Seq<char>, w: Seq<char>, s: Seq<char>)
    requires
        upper(head) == "DECIMAL"@ || upper(head) == "NUMERIC"@,
        w.len() > 0 && !is_white(w[0]) && !is_white(w.last()) && lacks(w, ','),
        s.len() > 0 && !is_white(s[0]) && !is_white(s.last()) && lacks(s, ','),
    ensures
        small_number(w) is None ==> sql_type_of(head + "("@ + (w + ","@ + s) + ")"@) == Err::<
            TypeModel,
            Seq<char>,
        >("DECIMAL width '"@ + w + "' is not a small integer"@),
        small_number(w) is Some && small_number(s) is None ==> sql_type_of(
            head + "("@ + (w + ","@ + s) + ")"@,
        ) == Err::<TypeModel, Seq<char>>("DECIMAL scale '"@ + s + "' is not a small integer"@),
        small_number(w) is None ==> sql_type_of(head + "("@ + w + ")"@) == Err::<TypeModel, Seq<char>>(
            "DECIMAL width '"@ + w + "' is not a small integer"@,
        ),
{
    reveal_strlit(",");
    assert(","@ =~= seq![',']);
    let inside = w + ","@ + s;
    let parts = seq![w, s];
    law_join_sets_separators(seq![w], seq![s], seq![',']);
    assert(seq![w] + seq![s] =~= parts);
    assert(join_of(seq![w], seq![',']) == w);
    assert(join_of(seq![s], seq![',']) == s);
    assert(join_of(parts, seq![',']) == inside);
    assert(lacks(parts[0], ',') && lacks(parts[1], ','));
    law_join_splits_again(parts, ',');
    law_trim_leaves_the_rest(w);
    law_trim_leaves_the_rest(s);
    assert(inside[0] == w[0] && inside.last() == s.last());
    law_trim_leaves_the_rest(inside);
    assert(type_args(inside)[0] == w && type_args(inside)[1] == s);
    lemma_decimal_arguments(head, inside);
    let one = seq![w];
    assert(lacks(one[0], ','));
    law_join_splits_again(one, ',');
    assert(type_args(w)[0] == w);
    lemma_decimal_arguments(head, w);
}

/// A small number is written with digits, with or without a plus sign, and is at most 255.
pub proof fn law_small_numbers(ds: Seq<char>)
    requires
        ds.len() > 0,
        all_digits(ds),
    ensures
        number_of(ds) <= 255 ==> (small_number(ds) matches Some(n) && n == number_of(ds)),
        number_of(ds) <= 255 ==> (small_number(seq!['+'] + ds) matches Some(n) && n == number_of(ds)),
        number_of(ds) > 255 ==> small_number(ds) is None && small_number(seq!['+'] + ds) is None,
        small_number(seq!['-'] + ds) is None,
        small_number(Seq::empty()) is None,
{
    assert(is_digit(ds[0]));
    assert((seq!['+'] + ds).skip(1) =~= ds);
    let negative = seq!['-'] + ds;
    assert(negative[0] == '-');
    assert(!is_digit(negative[0]));
}

} // verus!
