//! What the core's services tell an extension, and what an extension asks of them.
use crate::model::views;
use crate::paths::last_slash;
use crate::text::{chars_of, has_prefix, law_infix, same_text, starts_with};
use crate::spelling::lacks;
use vstd::prelude::*;

verus! {

/// Why the core could not give a setting.
#[derive(Debug)]
pub enum Configerror {
    Invalidkey(String),
    Typemismatch(String),
    Unavailable(String),
    Internalconfig(String),
}

/// The same for an extension.
#[derive(Debug)]
pub enum ConfigError {
    InvalidKey(String),
    TypeMismatch(String),
    Unavailable(String),
    InternalConfig(String),
}

/// The error for an extension.
pub open spec fn neutral_error(e: Configerror) -> ConfigError {
    match e {
        Configerror::Invalidkey(m) => ConfigError::InvalidKey(m),
        Configerror::Typemismatch(m) => ConfigError::TypeMismatch(m),
        Configerror::Unavailable(m) => ConfigError::Unavailable(m),
        Configerror::Internalconfig(m) => ConfigError::InternalConfig(m),
    }
}

pub fn core_config_error_to_neutral(err: Configerror) -> (r: ConfigError)
    ensures
        r == neutral_error(err),
{
    match err {
        Configerror::Invalidkey(m) => ConfigError::InvalidKey(m),
        Configerror::Typemismatch(m) => ConfigError::TypeMismatch(m),
        Configerror::Unavailable(m) => ConfigError::Unavailable(m),
        Configerror::Internalconfig(m) => ConfigError::InternalConfig(m),
    }
}

/// The core's answer to a question for a setting, or the message of its trap.
#[derive(Debug)]
pub enum ConfigReply<T> {
    Answered(Result<Option<T>, Configerror>),
    Trapped(String),
}

/// What an extension is told about a setting.
pub fn config_value<T>(reply: ConfigReply<T>) -> (r: Result<Option<T>, ConfigError>)
    ensures
        match reply {
            ConfigReply::Answered(Ok(v)) => r == Ok::<Option<T>, ConfigError>(v),
            ConfigReply::Answered(Err(e)) => r == Err::<Option<T>, ConfigError>(neutral_error(e)),
            ConfigReply::Trapped(t) => r == Err::<Option<T>, ConfigError>(
                ConfigError::InternalConfig(t),
            ),
        },
{
    match reply {
        ConfigReply::Answered(Ok(v)) => Ok(v),
        ConfigReply::Answered(Err(e)) => Err(core_config_error_to_neutral(e)),
        ConfigReply::Trapped(t) => Err(ConfigError::InternalConfig(t)),
    }
}

#[derive(Clone, Copy, Debug, PartialEq, Eq, Structural)]
pub enum LogLevel {
    Trace,
    Debug,
    Info,
    Warn,
    Error,
}

/// The same for the core.
#[derive(Clone, Copy, Debug, PartialEq, Eq, Structural)]
pub enum Loglevel {
    Trace,
    Debug,
    Info,
    Warn,
    Error,
}

pub fn neutral_loglevel_to_core(level: LogLevel) -> (r: Loglevel)
    ensures
        r == match level {
            LogLevel::Trace => Loglevel::Trace,
            LogLevel::Debug => Loglevel::Debug,
            LogLevel::Info => Loglevel::Info,
            LogLevel::Warn => Loglevel::Warn,
            LogLevel::Error => Loglevel::Error,
        },
{
    match level {
        LogLevel::Trace => Loglevel::Trace,
        LogLevel::Debug => Loglevel::Debug,
        LogLevel::Info => Loglevel::Info,
        LogLevel::Warn => Loglevel::Warn,
        LogLevel::Error => Loglevel::Error,
    }
}

// ---------------------------------------------------------------------------
// Imports of a component
// ---------------------------------------------------------------------------

/// What stands before the first `@`.
pub open spec fn before_at(s: Seq<char>) -> Seq<char>
    decreases s.len(),
{
    if s.len() == 0 || s[0] == '@' {
        Seq::empty()
    } else {
        seq![s[0]] + before_at(s.drop_first())
    }
}

/// The interface of an import: what stands behind the last `/`, without a version.
pub open spec fn interface_of(name: Seq<char>) -> Seq<char> {
    before_at(name.skip(last_slash(name) + 1))
}

/// The import lets a component query the database.
pub open spec fn is_query_import(name: Seq<char>) -> bool {
    has_prefix(name, "duckdb:extension/"@) && interface_of(name) == "query"@
}

fn names_query(name: &str) -> (r: bool)
    ensures
        r == is_query_import(name@),
{
    if !starts_with(name, "duckdb:extension/") {
        return false;
    }
    let cs = chars_of(name);
    let n: usize = cs.len();
    let mut i: usize = n;
    assert(name@.take(n as int) =~= name@);
    while i > 0 && cs[i - 1] != '/'
        invariant
            cs@ == name@,
            i <= n == cs@.len(),
            last_slash(name@) == last_slash(name@.take(i as int)),
        decreases i,
    {
        assert(name@.take(i as int).drop_last() =~= name@.take(i - 1));
        i -= 1;
    }
    let ghost tail = name@.skip(i as int);
    assert(last_slash(name@) == i - 1);
    let mut j: usize = i;
    assert(name@.subrange(i as int, i as int) =~= Seq::<char>::empty());
    assert(Seq::<char>::empty() + before_at(tail) =~= before_at(tail));
    while j < n && cs[j] != '@'
        invariant
            cs@ == name@,
            i <= j <= n == cs@.len(),
            tail == name@.skip(i as int),
            before_at(tail) == name@.subrange(i as int, j as int) + before_at(name@.skip(j as int)),
        decreases n - j,
    {
        let ghost rest = name@.skip(j as int);
        assert(rest.drop_first() =~= name@.skip(j + 1));
        assert(name@.subrange(i as int, j as int) + (seq![rest[0]] + before_at(rest.drop_first()))
            =~= name@.subrange(i as int, j + 1) + before_at(name@.skip(j + 1)));
        j += 1;
    }
    let word = name.substring_char(i, j);
    assert(before_at(name@.skip(j as int)) =~= Seq::<char>::empty());
    assert(name@.subrange(i as int, j as int) + Seq::<char>::empty() =~= word@);
    same_text(word, "query")
}

/// Some import lets a component query the database.
pub open spec fn imports_query(imports: Seq<Seq<char>>) -> bool {
    exists|i: int| 0 <= i < imports.len() && is_query_import(#[trigger] imports[i])
}

/// One of the imports lets a component query the database.
pub fn any_query_import(imports: &Vec<String>) -> (r: bool)
    ensures
        r == imports_query(views(imports@)),
{
    let ghost all = views(imports@);
    let mut i: usize = 0;
    while i < imports.len()
        invariant
            i <= imports@.len(),
            all == views(imports@),
            forall|j: int| 0 <= j < i ==> !is_query_import(#[trigger] all[j]),
        decreases imports@.len() - i,
    {
        assert(all[i as int] == imports@[i as int]@);
        if names_query(imports[i].as_str()) {
            return true;
        }
        i += 1;
    }
    false
}

// ---------------------------------------------------------------------------
// Laws
// ---------------------------------------------------------------------------

/// A configuration error keeps its kind and its message.
pub proof fn law_configuration_errors_keep_their_kind(e: Configerror)
    ensures
        match (e, neutral_error(e)) {
            (Configerror::Invalidkey(a), ConfigError::InvalidKey(b)) => a == b,
            (Configerror::Typemismatch(a), ConfigError::TypeMismatch(b)) => a == b,
            (Configerror::Unavailable(a), ConfigError::Unavailable(b)) => a == b,
            (Configerror::Internalconfig(a), ConfigError::InternalConfig(b)) => a == b,
            _ => false,
        },
{
}

/// The interface of an import stands behind the last slash and before the version.
pub proof fn law_interface_of_an_import(package: Seq<char>, interface: Seq<char>, version: Seq<char>)
    requires
        lacks(interface, '/'),
        lacks(interface, '@'),
        lacks(version, '/'),
    ensures
        interface_of(package + seq!['/'] + interface) == interface,
        interface_of(package + seq!['/'] + interface + seq!['@'] + version) == interface,
{
    lemma_interface(package, interface);
    assert(interface.take(interface.len() as int) =~= interface);
    lemma_before_at(interface, Seq::empty());
    let rest = interface + seq!['@'] + version;
    assert(lacks(rest, '/')) by {
        assert forall|i: int| 0 <= i < rest.len() implies #[trigger] rest[i] != '/' by {
            if i < interface.len() {
                assert(interface[i] != '/');
            } else if i > interface.len() {
                assert(version[i - interface.len() - 1] != '/');
            }
        }
    }
    lemma_interface(package, rest);
    assert(package + seq!['/'] + rest =~= package + seq!['/'] + interface + seq!['@'] + version);
    lemma_before_at(interface, seq!['@'] + version);
    assert(interface + (seq!['@'] + version) =~= rest);
    assert(interface + Seq::<char>::empty() =~= interface);
}

proof fn lemma_interface(package: Seq<char>, rest: Seq<char>)
    requires
        lacks(rest, '/'),
    ensures
        interface_of(package + seq!['/'] + rest) == before_at(rest),
{
    let name = package + seq!['/'] + rest;
    lemma_slash_is(name, package.len() as int);
    assert(name.skip(package.len() as int + 1) =~= rest);
}

proof fn lemma_slash_is(path: Seq<char>, k: int)
    requires
        0 <= k < path.len(),
        path[k] == '/',
        forall|i: int| k < i < path.len() ==> #[trigger] path[i] != '/',
    ensures
        last_slash(path) == k,
    decreases path.len(),
{
    if k < path.len() - 1 {
        assert(path[path.len() - 1] != '/');
        lemma_slash_is(path.drop_last(), k);
    }
}

proof fn lemma_before_at(s: Seq<char>, tail: Seq<char>)
    requires
        lacks(s, '@'),
        tail.len() == 0 || tail[0] == '@',
    ensures
        before_at(s + tail) == s,
    decreases s.len(),
{
    let whole = s + tail;
    if s.len() == 0 {
        assert(whole =~= tail);
        assert(before_at(whole) =~= s);
    } else {
        assert(s[0] != '@');
        assert(whole[0] == s[0]);
        assert(whole.drop_first() =~= s.drop_first() + tail);
        assert(lacks(s.drop_first(), '@')) by {
            assert forall|i: int| 0 <= i < s.drop_first().len() implies #[trigger] s.drop_first()[i] != '@' by {
                assert(s[i + 1] != '@');
            }
        }
        lemma_before_at(s.drop_first(), tail);
        assert(seq![s[0]] + s.drop_first() =~= s);
    }
}

proof fn lemma_query_plain()
    ensures
        is_query_import("duckdb:extension/query"@),
{
    reveal_strlit("duckdb:extension/query");
    reveal_strlit("duckdb:extension/");
    reveal_strlit("query");
    let package = "duckdb:extension/"@.drop_last();
    let interface = "query"@;
    assert("duckdb:extension/"@ =~= package + seq!['/']);
    law_interface_of_an_import(package, interface, Seq::empty());
    assert("duckdb:extension/query"@ =~= "duckdb:extension/"@ + interface);
    law_infix(Seq::empty(), "duckdb:extension/"@, interface);
}

proof fn lemma_query_versioned(version: Seq<char>)
    requires
        lacks(version, '/'),
    ensures
        is_query_import("duckdb:extension/query@"@ + version),
{
    reveal_strlit("duckdb:extension/query@");
    reveal_strlit("duckdb:extension/");
    reveal_strlit("query");
    let head = "duckdb:extension/"@;
    let package = head.drop_last();
    let interface = "query"@;
    assert(head =~= package + seq!['/']);
    law_interface_of_an_import(package, interface, version);
    assert("duckdb:extension/query@"@ =~= head + interface + seq!['@']);
    let tail = interface + seq!['@'] + version;
    assert(head + interface + seq!['@'] + version =~= head + tail);
    law_infix(Seq::empty(), head, tail);
}

/// A component can query the database where it imports the interface "query" of the
/// extension package, in any version.
pub proof fn law_query_imports(imports: Seq<Seq<char>>, version: Seq<char>, i: int)
    requires
        lacks(version, '/'),
    ensures
        is_query_import("duckdb:extension/query"@),
        is_query_import("duckdb:extension/query@"@ + version),
        0 <= i < imports.len() && is_query_import(imports[i]) ==> imports_query(imports),
        !has_prefix(imports[i], "duckdb:extension/"@) ==> !is_query_import(imports[i]),
        interface_of(imports[i]) != "query"@ ==> !is_query_import(imports[i]),
        !imports_query(Seq::empty()),
{
    lemma_query_plain();
    lemma_query_versioned(version);
}

} // verus!
