//! Names that are spliced into SQL or into file names.
use crate::text::{char_is_word, chars_of, is_alpha, is_digit, is_word};
use crate::spelling::lacks;
use vstd::prelude::*;

verus! {

/// A character that may stand in an extension name.
pub open spec fn is_name_char(c: char) -> bool {
    is_word(c) || c == '-'
}

/// Letters, digits, underscores and hyphens only.
pub open spec fn is_loadable(name: Seq<char>) -> bool {
    forall|i: int| 0 <= i < name.len() ==> is_name_char(#[trigger] name[i])
}

/// An extension name from an arbitrary text: every other character becomes an
/// underscore, and the empty text an underscore too.
pub open spec fn extension_name_of(raw: Seq<char>) -> Seq<char> {
    if raw.len() == 0 {
        seq!['_']
    } else {
        raw.map_values(
            |c: char|
                if is_name_char(c) {
                    c
                } else {
                    '_'
                },
        )
    }
}

pub fn sanitize_extension_name(raw: &str) -> (r: String)
    ensures
        r@ == extension_name_of(raw@),
{
    let cs = chars_of(raw);
    let mut out = String::new();
    if cs.len() == 0 {
        out.push('_');
        assert(out@ =~= extension_name_of(raw@));
        return out;
    }
    let ghost full = extension_name_of(raw@);
    let mut i: usize = 0;
    while i < cs.len()
        invariant
            cs@ == raw@,
            cs@.len() > 0,
            full == extension_name_of(raw@),
            i <= cs@.len(),
            out@ == full.take(i as int),
        decreases cs@.len() - i,
    {
        if char_is_word(cs[i]) || cs[i] == '-' {
            out.push(cs[i]);
        } else {
            out.push('_');
        }
        i += 1;
        assert(out@ =~= full.take(i as int));
    }
    assert(out@ =~= full);
    out
}

/// The name can be spliced into a `LOAD` statement.
pub fn is_loadable_name(name: &str) -> (r: bool)
    ensures
        r == is_loadable(name@),
{
    let cs = chars_of(name);
    let mut i: usize = 0;
    while i < cs.len()
        invariant
            cs@ == name@,
            i <= cs@.len(),
            forall|j: int| 0 <= j < i ==> is_name_char(#[trigger] cs@[j]),
        decreases cs@.len() - i,
    {
        if !(char_is_word(cs[i]) || cs[i] == '-') {
            return false;
        }
        i += 1;
    }
    true
}

/// Not empty, and letters, digits and underscores only.
pub open spec fn is_safe_ident(s: Seq<char>) -> bool {
    s.len() > 0 && forall|i: int| 0 <= i < s.len() ==> is_word(#[trigger] s[i])
}

pub fn is_safe_prefix_identifier(s: &str) -> (r: bool)
    ensures
        r == is_safe_ident(s@),
{
    let cs = chars_of(s);
    if cs.len() == 0 {
        return false;
    }
    let mut i: usize = 0;
    while i < cs.len()
        invariant
            cs@ == s@,
            i <= cs@.len(),
            forall|j: int| 0 <= j < i ==> is_word(#[trigger] cs@[j]),
        decreases cs@.len() - i,
    {
        if !char_is_word(cs[i]) {
            return false;
        }
        i += 1;
    }
    true
}

/// `LOAD <name>;`
pub open spec fn load_sql(name: Seq<char>) -> Seq<char> {
    "LOAD "@ + name + ";"@
}

pub fn build_load_sql(name: &str) -> (r: String)
    ensures
        r@ == load_sql(name@),
{
    let mut sql = "LOAD ".to_owned();
    sql.append(name);
    sql.append(";");
    sql
}

/// The first twelve characters of a digest.
pub open spec fn short_form(digest: Seq<char>) -> Seq<char> {
    if digest.len() > 12 {
        digest.take(12)
    } else {
        digest
    }
}

pub fn short_digest(digest: &str) -> (r: String)
    ensures
        r@ == short_form(digest@),
{
    let n: usize = digest.unicode_len();
    if n > 12 {
        let head = digest.substring_char(0, 12);
        assert(head@ =~= digest@.take(12));
        head.to_owned()
    } else {
        digest.to_owned()
    }
}

/// Every made extension name can be loaded, is not empty, and is made into itself.
pub proof fn law_made_names_are_loadable(raw: Seq<char>)
    ensures
        is_loadable(extension_name_of(raw)),
        extension_name_of(raw).len() > 0,
        extension_name_of(extension_name_of(raw)) == extension_name_of(raw),
{
    let name = extension_name_of(raw);
    assert forall|i: int| 0 <= i < name.len() implies is_name_char(#[trigger] name[i]) by {}
    assert(extension_name_of(name) =~= name);
}

// ---------------------------------------------------------------------------
// Laws
// ---------------------------------------------------------------------------

/// A name is taken into a LOAD statement as it is, with a semicolon behind it.
pub proof fn law_load_statement(name: Seq<char>)
    ensures
        load_sql(name) == "LOAD "@ + name + ";"@,
        is_loadable(name) <==> forall|i: int|
            0 <= i < name.len() ==> is_alpha(#[trigger] name[i]) || is_digit(name[i]) || name[i] == '_'
                || name[i] == '-',
        is_safe_ident(name) <==> name.len() > 0 && is_loadable(name) && lacks(name, '-'),
{
    if is_loadable(name) {
        assert forall|i: int| 0 <= i < name.len() implies is_alpha(#[trigger] name[i]) || is_digit(name[i])
            || name[i] == '_' || name[i] == '-' by {
            assert(is_name_char(name[i]));
        }
        if lacks(name, '-') {
            assert forall|i: int| 0 <= i < name.len() implies is_word(#[trigger] name[i]) by {
                assert(is_name_char(name[i]));
            }
        }
    }
    if is_safe_ident(name) {
        assert forall|i: int| 0 <= i < name.len() implies #[trigger] name[i] != '-' by {
            assert(is_word(name[i]));
        }
    }
}

/// A name is made character by character: what a name can hold stays, and anything else
/// becomes an underscore.
pub proof fn law_extension_name_is_by_character(raw: Seq<char>, i: int)
    requires
        0 <= i < raw.len(),
    ensures
        extension_name_of(raw).len() == raw.len(),
        extension_name_of(raw)[i] == (if is_alpha(raw[i]) || is_digit(raw[i]) || raw[i] == '-' {
            raw[i]
        } else {
            '_'
        }),
        extension_name_of(Seq::empty()) == seq!['_'],
{
}

/// The short form of a digest is its first twelve characters.
pub proof fn law_short_form_is_a_prefix(digest: Seq<char>)
    ensures
        short_form(digest).len() == (if digest.len() < 12 { digest.len() as int } else { 12 }),
        forall|i: int| 0 <= i < short_form(digest).len() ==> #[trigger] short_form(digest)[i] == digest[i],
{
}

} // verus!
