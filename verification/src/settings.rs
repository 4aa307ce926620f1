//! What the host reads from its settings: network grants, the extensions to load at
//! start, dynamic-link providers, and the choice of extension providers.
use crate::ident::{is_loadable, is_loadable_name};
use crate::model::{view_opt, views};
use crate::text::{
    chars_of, commas_for_white, find_from, find_text, has_infix, index_from, is_white,
    law_list_items, law_replace_is_by_character, law_search_finds_the_first,
    law_trim_leaves_the_rest, list_items, lower, occurs_at, position_from, replace_char,
    replace_of, same_text, same_text_ignoring_case, split_list, text_of, trim, trim_of,
    white_as_commas,
};
use crate::spelling::{lacks, lemma_index_is};
use vstd::prelude::*;

verus! {

// ---------------------------------------------------------------------------
// Network grants
// ---------------------------------------------------------------------------

/// What a policy can be asked for.
#[derive(Clone, Copy, Debug, PartialEq, Eq, Structural)]
pub enum Capability {
    Http,
}

/// What an extension may do.
#[derive(Clone, Copy, Debug, PartialEq, Eq, Structural)]
pub enum Policy {
    DenyAll,
    AllowAll,
}

impl Policy {
    pub fn is_granted(&self, capability: Capability) -> (r: bool)
        ensures
            r == (*self == Policy::AllowAll),
    {
        match capability {
            Capability::Http => match self {
                Policy::AllowAll => true,
                Policy::DenyAll => false,
            },
        }
    }
}

/// The names of a grant list: what stands between commas and spaces.
pub open spec fn granted_names(v: Seq<char>) -> Seq<Seq<char>> {
    list_items(replace_of(v, ' ', ","@), ',')
}

/// One of the names is the extension's, up to case.
pub open spec fn names_extension(names: Seq<Seq<char>>, extension: Seq<char>) -> bool {
    exists|i: int| 0 <= i < names.len() && lower(#[trigger] names[i]) == lower(extension)
}

/// The network grant setting gives the extension network access: `all` and `*` give
/// it to every extension, a list to those it names; without a setting, with an empty
/// one or with `none` no extension has it.
pub open spec fn grants_network(grant: Option<Seq<char>>, extension: Seq<char>) -> bool {
    match grant {
        None => false,
        Some(raw) => {
            let v = trim_of(raw);
            if v.len() == 0 || lower(v) == lower("none"@) {
                false
            } else if v == "*"@ || lower(v) == lower("all"@) {
                true
            } else {
                names_extension(granted_names(v), extension)
            }
        },
    }
}

/// The policy of an extension under the network grant setting.
pub fn network_grant_policy_for(grant: Option<&str>, extension: &str) -> (r: Policy)
    ensures
        r == (if grants_network(
            match grant {
                Some(g) => Some(g@),
                None => None,
            },
            extension@,
        ) {
            Policy::AllowAll
        } else {
            Policy::DenyAll
        }),
{
    match grant {
        None => Policy::DenyAll,
        Some(raw) => {
            let v = trim(raw);
            if v.is_empty() || same_text_ignoring_case(v, "none") {
                return Policy::DenyAll;
            }
            if same_text(v, "*") || same_text_ignoring_case(v, "all") {
                return Policy::AllowAll;
            }
            let names = split_list(replace_char(v, ' ', ",").as_str(), ',');
            let mut i: usize = 0;
            while i < names.len()
                invariant
                    i <= names@.len(),
                    grant matches Some(g) && g@ == raw@,
                    v@ == trim_of(raw@),
                    v@.len() > 0 && lower(v@) != lower("none"@) && v@ != "*"@ && lower(v@) != lower(
                        "all"@,
                    ),
                    views(names@) == granted_names(v@),
                    forall|j: int| 0 <= j < i ==> lower(#[trigger] views(names@)[j]) != lower(extension@),
                decreases names@.len() - i,
            {
                assert(views(names@)[i as int] == names@[i as int]@);
                if same_text_ignoring_case(names[i].as_str(), extension) {
                    assert(names_extension(views(names@), extension@));
                    return Policy::AllowAll;
                }
                i += 1;
            }
            Policy::DenyAll
        },
    }
}

/// The extension may use the network under the given setting.
pub fn network_grant_allows(grant: Option<&str>, extension: &str) -> (r: bool)
    ensures
        r == grants_network(
            match grant {
                Some(g) => Some(g@),
                None => None,
            },
            extension@,
        ),
{
    network_grant_policy_for(grant, extension).is_granted(Capability::Http)
}

// ---------------------------------------------------------------------------
// Extensions to load at start
// ---------------------------------------------------------------------------

/// One name of the autoload setting.
#[derive(Debug)]
pub enum AutoloadItem {
    Load(String),
    /// The name cannot be spliced into a `LOAD` statement.
    Invalid(String),
}

impl AutoloadItem {
    /// The name.
    pub open spec fn name(self) -> Seq<char> {
        match self {
            AutoloadItem::Load(n) => n@,
            AutoloadItem::Invalid(n) => n@,
        }
    }
}

/// The names of the autoload setting, in order; the JSON functions and the host's own
/// scalars where it is not set.
pub open spec fn autoload_list(setting: Option<Seq<char>>) -> Seq<Seq<char>> {
    let text = match setting {
        Some(s) => s,
        None => "jsonfns,ducklink_scalars"@,
    };
    list_items(white_as_commas(text), ',')
}

pub fn autoload_names(setting: Option<&str>) -> (r: Vec<AutoloadItem>)
    ensures
        ({
            let names = autoload_list(
                match setting {
                    Some(s) => Some(s@),
                    None => None,
                },
            );
            &&& r@.len() == names.len()
            &&& forall|i: int|
                0 <= i < r@.len() ==> (#[trigger] r@[i]).name() == names[i] && (r@[i] is Load
                    <==> is_loadable(names[i]))
        }),
{
    let text: &str = match setting {
        Some(s) => s,
        None => "jsonfns,ducklink_scalars",
    };
    let names = split_list(commas_for_white(text).as_str(), ',');
    let ghost all = views(names@);
    let mut out: Vec<AutoloadItem> = Vec::new();
    for name in it: names
        invariant
            it.seq() == names@,
            all == views(names@),
            out@.len() == it.index(),
            forall|i: int|
                0 <= i < out@.len() ==> (#[trigger] out@[i]).name() == all[i] && (out@[i] is Load
                    <==> is_loadable(all[i])),
    {
        assert(all[it.index()] == name@);
        if is_loadable_name(name.as_str()) {
            out.push(AutoloadItem::Load(name));
        } else {
            out.push(AutoloadItem::Invalid(name));
        }
    }
    out
}

// ---------------------------------------------------------------------------
// Dynamic-link providers
// ---------------------------------------------------------------------------

/// A directory that a provider sees: where it lies, and under which name.
#[derive(Debug)]
pub struct ProviderPreopen {
    pub host: String,
    pub guest: String,
}

/// One entry of the provider setting.
#[derive(Debug)]
pub enum ProviderEntry {
    /// The entry has no `=`.
    Malformed(String),
    Provider {
        id: String,
        path: String,
        preopens: Vec<ProviderPreopen>,
        /// The preopens that have no `=`.
        skipped: Vec<String>,
    },
}

#[verifier::ext_equal]
pub struct ProviderModel {
    pub id: Seq<char>,
    pub path: Seq<char>,
    pub preopens: Seq<(Seq<char>, Seq<char>)>,
    pub skipped: Seq<Seq<char>>,
}

/// A text cut at its first `=`.
pub open spec fn cut_at_equals(s: Seq<char>) -> Option<(Seq<char>, Seq<char>)> {
    let k = index_from(s, '=', 0);
    if 0 <= k < s.len() {
        Some((s.take(k), s.skip(k + 1)))
    } else {
        None
    }
}

/// The preopens among `guest=host` items, as host and guest, without white space.
pub open spec fn preopen_pairs(items: Seq<Seq<char>>) -> Seq<(Seq<char>, Seq<char>)>
    decreases items.len(),
{
    if items.len() == 0 {
        Seq::empty()
    } else {
        let before = preopen_pairs(items.drop_last());
        match cut_at_equals(items.last()) {
            Some((guest, host)) => before.push((trim_of(host), trim_of(guest))),
            None => before,
        }
    }
}

/// The items that are no `guest=host` pair.
pub open spec fn preopens_skipped(items: Seq<Seq<char>>) -> Seq<Seq<char>>
    decreases items.len(),
{
    if items.len() == 0 {
        Seq::empty()
    } else {
        let before = preopens_skipped(items.drop_last());
        match cut_at_equals(items.last()) {
            Some(_) => before,
            None => before.push(items.last()),
        }
    }
}

/// An entry `id=path` or `id=path:preopens`. The preopens begin at the first `:` that
/// a `/` follows.
pub open spec fn provider_of(entry: Seq<char>) -> Option<ProviderModel> {
    match cut_at_equals(entry) {
        None => None,
        Some((id, rest)) => {
            let k = find_from(rest, ":/"@, 0);
            let items = if k >= 0 {
                list_items(rest.skip(k + 1), ';')
            } else {
                Seq::empty()
            };
            Some(
                ProviderModel {
                    id,
                    path: trim_of(
                        if k >= 0 {
                            rest.take(k)
                        } else {
                            rest
                        },
                    ),
                    preopens: preopen_pairs(items),
                    skipped: preopens_skipped(items),
                },
            )
        },
    }
}

impl View for ProviderPreopen {
    type V = (Seq<char>, Seq<char>);

    open spec fn view(&self) -> (Seq<char>, Seq<char>) {
        (self.host@, self.guest@)
    }
}

/// The entry is what the text says.
pub open spec fn reads_entry(e: ProviderEntry, text: Seq<char>) -> bool {
    match e {
        ProviderEntry::Malformed(t) => provider_of(text) is None && t@ == text,
        ProviderEntry::Provider { id, path, preopens, skipped } => provider_of(text) == Some(
            ProviderModel {
                id: id@,
                path: path@,
                preopens: views(preopens@),
                skipped: views(skipped@),
            },
        ),
    }
}

fn split_equals(s: &str) -> (r: Option<(String, String)>)
    ensures
        match r {
            Some((a, b)) => cut_at_equals(s@) == Some((a@, b@)),
            None => cut_at_equals(s@) is None,
        },
{
    let cs = chars_of(s);
    let k: usize = position_from(&cs, '=', 0);
    if k < cs.len() {
        let a = text_of(&cs, 0, k);
        let b = text_of(&cs, k + 1, cs.len());
        assert(a@ =~= s@.take(k as int));
        assert(b@ =~= s@.skip(k + 1));
        Some((a, b))
    } else {
        None
    }
}

fn parse_provider(entry: &str) -> (r: ProviderEntry)
    ensures
        reads_entry(r, entry@),
{
    let (id, rest) = match split_equals(entry) {
        Some(p) => p,
        None => {
            return ProviderEntry::Malformed(entry.to_owned());
        },
    };
    let cs = chars_of(rest.as_str());
    let mut preopens: Vec<ProviderPreopen> = Vec::new();
    let mut skipped: Vec<String> = Vec::new();
    assert(views(preopens@) =~= Seq::<(Seq<char>, Seq<char>)>::empty());
    assert(views(skipped@) =~= Seq::<Seq<char>>::empty());
    let path: String = match find_text(&cs, ":/") {
        None => trim(rest.as_str()).to_owned(),
        Some(k) => {
            proof {
                reveal_strlit(":/");
            }
            let head = text_of(&cs, 0, k);
            let tail = text_of(&cs, k + 1, cs.len());
            assert(head@ =~= rest@.take(k as int));
            assert(tail@ =~= rest@.skip(k + 1));
            let items = split_list(tail.as_str(), ';');
            let ghost all = views(items@);
            let mut i: usize = 0;
            while i < items.len()
                invariant
                    i <= items@.len(),
                    all == views(items@),
                    views(preopens@) == preopen_pairs(all.take(i as int)),
                    views(skipped@) == preopens_skipped(all.take(i as int)),
                decreases items@.len() - i,
            {
                let ghost p0 = preopens@;
                let ghost s0 = skipped@;
                assert(all.take(i + 1).drop_last() =~= all.take(i as int));
                assert(all.take(i + 1).last() == items@[i as int]@);
                match split_equals(items[i].as_str()) {
                    Some((guest, host)) => {
                        let preopen = ProviderPreopen {
                            host: trim(host.as_str()).to_owned(),
                            guest: trim(guest.as_str()).to_owned(),
                        };
                        preopens.push(preopen);
                        assert(views(preopens@) =~= views(p0).push((trim_of(host@), trim_of(guest@))));
                    },
                    None => {
                        skipped.push(items[i].clone());
                        assert(views(skipped@) =~= views(s0).push(items@[i as int]@));
                    },
                }
                i += 1;
            }
            assert(all.take(all.len() as int) =~= all);
            trim(head.as_str()).to_owned()
        },
    };
    ProviderEntry::Provider { id, path, preopens, skipped }
}

/// The entries of the provider setting, one per item of the comma-separated list.
pub fn parse_env_providers(setting: &str) -> (r: Vec<ProviderEntry>)
    ensures
        r@.len() == list_items(setting@, ',').len(),
        forall|i: int| 0 <= i < r@.len() ==> reads_entry(#[trigger] r@[i], list_items(setting@, ',')[i]),
{
    let items = split_list(setting, ',');
    let ghost all = views(items@);
    let mut out: Vec<ProviderEntry> = Vec::new();
    let mut i: usize = 0;
    while i < items.len()
        invariant
            i <= items@.len(),
            all == views(items@),
            out@.len() == i,
            forall|j: int| 0 <= j < i ==> reads_entry(#[trigger] out@[j], all[j]),
        decreases items@.len() - i,
    {
        assert(all[i as int] == items@[i as int]@);
        out.push(parse_provider(items[i].as_str()));
        i += 1;
    }
    out
}

// ---------------------------------------------------------------------------
// The choice among the providers of an extension
// ---------------------------------------------------------------------------

/// The provider that a request forces; none where the request lifts the choice.
pub open spec fn forced_by(id: Seq<char>) -> Option<Seq<char>> {
    if id.len() == 0 || lower(id) == lower("auto"@) || lower(id) == lower("none"@) {
        None
    } else {
        Some(id)
    }
}

/// The sentence that confirms such a request.
pub open spec fn forced_sentence(id: Seq<char>) -> Seq<char> {
    match forced_by(id) {
        None => "extension_provider override cleared (auto)"@,
        Some(p) => "extension_provider forced to '"@ + p + "'"@,
    }
}

/// Which provider of an extension is to be used, and which ones are not.
#[derive(Debug)]
pub struct ResolvePolicy {
    pub forced_provider: Option<String>,
    pub denied: Vec<String>,
}

impl ResolvePolicy {
    /// The policy under the two settings. An empty forced provider is none; the
    /// denied ones are a comma-separated list.
    pub fn from_settings(forced: Option<&str>, denied: Option<&str>) -> (r: ResolvePolicy)
        ensures
            view_opt(r.forced_provider) == match forced {
                Some(s) => if s@.len() == 0 {
                    None
                } else {
                    Some(s@)
                },
                None => None,
            },
            views(r.denied@) == match denied {
                Some(s) => list_items(s@, ','),
                None => Seq::empty(),
            },
    {
        let forced_provider: Option<String> = match forced {
            Some(s) => if s.is_empty() {
                None
            } else {
                Some(s.to_owned())
            },
            None => None,
        };
        let denied_list: Vec<String> = match denied {
            Some(s) => split_list(s, ','),
            None => {
                let none: Vec<String> = Vec::new();
                assert(views(none@) =~= Seq::<Seq<char>>::empty());
                none
            },
        };
        ResolvePolicy { forced_provider, denied: denied_list }
    }

    /// Forces a provider for the loads to come; an empty name, `auto` and `none` lift
    /// the choice. Returns the sentence that confirms it.
    pub fn set_forced_provider(&mut self, id: &str) -> (r: String)
        ensures
            final(self).denied == old(self).denied,
            view_opt(final(self).forced_provider) == forced_by(id@),
            r@ == forced_sentence(id@),
    {
        if id.is_empty() || same_text_ignoring_case(id, "auto") || same_text_ignoring_case(id, "none") {
            self.forced_provider = None;
            "extension_provider override cleared (auto)".to_owned()
        } else {
            self.forced_provider = Some(id.to_owned());
            let mut m = "extension_provider forced to '".to_owned();
            m.append(id);
            m.append("'");
            m
        }
    }
}

// ---------------------------------------------------------------------------
// Laws
// ---------------------------------------------------------------------------

/// No extension has network access unless the setting is there and says so: not
/// without a setting, and not with a blank one.
pub proof fn law_network_is_denied_by_default(blank: Seq<char>, extension: Seq<char>)
    requires
        trim_of(blank).len() == 0,
    ensures
        !grants_network(None, extension),
        !grants_network(Some(blank), extension),
{
}

/// The case of an extension's name does not matter to a grant.
pub proof fn law_grant_ignores_case(grant: Option<Seq<char>>, a: Seq<char>, b: Seq<char>)
    requires
        lower(a) == lower(b),
    ensures
        grants_network(grant, a) == grants_network(grant, b),
{
    if let Some(raw) = grant {
        let names = granted_names(trim_of(raw));
        assert(names_extension(names, a) == names_extension(names, b));
    }
}

/// A grant of "*", or of "all" in any case, is for every extension; one of "none" in any
/// case is for none. Any other grant is for the extensions that it lists, in any case.
pub proof fn law_grant_words(grant: Seq<char>, extension: Seq<char>)
    ensures
        ({
            let v = trim_of(grant);
            let granted = grants_network(Some(grant), extension);
            &&& v == seq!['*'] ==> granted
            &&& lower(v) == "all"@ ==> granted
            &&& lower(v) == "none"@ ==> !granted
            &&& v.len() > 0 && v != seq!['*'] && lower(v) != "all"@ && lower(v) != "none"@ ==> (granted
                <==> exists|i: int|
                0 <= i < granted_names(v).len() && lower(#[trigger] granted_names(v)[i]) == lower(
                    extension,
                ))
        }),
{
    reveal_strlit("*");
    reveal_strlit("all");
    reveal_strlit("none");
    assert("*"@ =~= seq!['*']);
    assert(lower("all"@) =~= "all"@);
    assert(lower("none"@) =~= "none"@);
    assert("all"@.len() == 3 && "none"@.len() == 4);
    let v = trim_of(grant);
    assert(lower(v).len() == v.len());
    if v == seq!['*'] {
        assert(v.len() == 1);
    }
}

/// Granted names stand between commas and spaces.
pub proof fn law_granted_names(a: Seq<char>, c: char, b: Seq<char>)
    requires
        c == ',' || c == ' ',
    ensures
        granted_names(a + seq![c] + b) == granted_names(a) + granted_names(b),
        a.len() > 0 && lacks(a, ',') && (forall|i: int| 0 <= i < a.len() ==> !is_white(#[trigger] a[i]))
            ==> granted_names(a) == seq![a],
{
    reveal_strlit(",");
    assert(","@ =~= seq![',']);
    law_replace_is_by_character(a, seq![c], ' ', c, ","@);
    law_replace_is_by_character(a + seq![c], b, ' ', c, ","@);
    let x = replace_of(a, ' ', ","@);
    let y = replace_of(b, ' ', ","@);
    assert(replace_of(seq![c], ' ', ","@) == seq![',']);
    assert(replace_of(a + seq![c] + b, ' ', ","@) == x + seq![','] + y);
    law_list_items(x, y, ',');
    if a.len() > 0 && lacks(a, ',') && (forall|i: int| 0 <= i < a.len() ==> !is_white(#[trigger] a[i])) {
        assert forall|i: int| 0 <= i < a.len() implies #[trigger] a[i] != ' ' by {
            assert(!is_white(a[i]));
        }
        assert(x == a);
        assert(!is_white(a[0]) && !is_white(a[a.len() - 1]));
        law_trim_leaves_the_rest(a);
    }
}

/// The extensions to load stand between commas and white space; without a setting they are
/// jsonfns and ducklink_scalars.
pub proof fn law_autoload_list(a: Seq<char>, c: char, b: Seq<char>)
    requires
        c == ',' || is_white(c),
    ensures
        autoload_list(Some(a + seq![c] + b)) == autoload_list(Some(a)) + autoload_list(Some(b)),
        a.len() > 0 && lacks(a, ',') && (forall|i: int| 0 <= i < a.len() ==> !is_white(#[trigger] a[i]))
            ==> autoload_list(Some(a)) == seq![a],
        autoload_list(Some(Seq::empty())).len() == 0,
        autoload_list(None) == seq!["jsonfns"@, "ducklink_scalars"@],
{
    lemma_autoload_concat(a, c, b);
    lemma_autoload_one(a);
    let none = Seq::<char>::empty();
    assert(white_as_commas(none) =~= none);
    law_list_items(none, none, ',');
    law_trim_leaves_the_rest(none);
    reveal_strlit("jsonfns,ducklink_scalars");
    reveal_strlit("jsonfns");
    reveal_strlit("ducklink_scalars");
    let x = "jsonfns"@;
    let y = "ducklink_scalars"@;
    assert("jsonfns,ducklink_scalars"@ =~= x + seq![','] + y);
    lemma_autoload_concat(x, ',', y);
    lemma_autoload_one(x);
    lemma_autoload_one(y);
    assert(seq![x] + seq![y] =~= seq![x, y]);
}

proof fn lemma_autoload_concat(a: Seq<char>, c: char, b: Seq<char>)
    requires
        c == ',' || is_white(c),
    ensures
        autoload_list(Some(a + seq![c] + b)) == autoload_list(Some(a)) + autoload_list(Some(b)),
{
    let s = a + seq![c] + b;
    assert(white_as_commas(s) =~= white_as_commas(a) + seq![','] + white_as_commas(b));
    law_list_items(white_as_commas(a), white_as_commas(b), ',');
}

proof fn lemma_autoload_one(a: Seq<char>)
    ensures
        a.len() > 0 && lacks(a, ',') && (forall|i: int| 0 <= i < a.len() ==> !is_white(#[trigger] a[i]))
            ==> autoload_list(Some(a)) == seq![a],
{
    if a.len() > 0 && lacks(a, ',') && (forall|i: int| 0 <= i < a.len() ==> !is_white(#[trigger] a[i])) {
        assert(white_as_commas(a) =~= a);
        assert(!is_white(a[0]) && !is_white(a[a.len() - 1]));
        law_trim_leaves_the_rest(a);
        law_list_items(a, a, ',');
    }
}

/// A text is cut at its first equals sign.
pub proof fn law_cut_at_the_first_equals(key: Seq<char>, value: Seq<char>)
    requires
        lacks(key, '='),
    ensures
        cut_at_equals(key + seq!['='] + value) == Some((key, value)),
        cut_at_equals(key) is None,
{
    let s = key + seq!['='] + value;
    assert(s.take(key.len() as int) =~= key);
    lemma_index_is(s, '=', key.len() as int);
    assert(s.skip(key.len() as int + 1) =~= value);
    assert(key.take(key.len() as int) =~= key);
    lemma_index_is(key, '=', key.len() as int);
}

/// A preopen is written "guest=host" and read as the host's place and the guest's name for
/// it, in the order of the items; an item without an equals sign is set aside.
pub proof fn law_preopen_items(items: Seq<Seq<char>>, guest: Seq<char>, host: Seq<char>)
    requires
        lacks(guest, '='),
    ensures
        preopen_pairs(items.push(guest + seq!['='] + host)) == preopen_pairs(items).push(
            (trim_of(host), trim_of(guest)),
        ),
        preopens_skipped(items.push(guest + seq!['='] + host)) == preopens_skipped(items),
        preopen_pairs(items.push(guest)) == preopen_pairs(items),
        preopens_skipped(items.push(guest)) == preopens_skipped(items).push(guest),
        preopen_pairs(Seq::empty()).len() == 0,
        preopens_skipped(Seq::empty()).len() == 0,
{
    law_cut_at_the_first_equals(guest, host);
    assert(items.push(guest + seq!['='] + host).drop_last() =~= items);
    assert(items.push(guest).drop_last() =~= items);
}

/// A provider is written "id=path", or "id=path:preopens" with preopens that begin with a
/// slash. Without an equals sign there is no provider.
pub proof fn law_provider_entry(id: Seq<char>, path: Seq<char>, preopens: Seq<char>)
    requires
        lacks(id, '='),
        !has_infix(path + seq![':'], seq![':', '/']),
    ensures
        provider_of(id) is None,
        provider_of(id + seq!['='] + path) matches Some(p) && p.id == id && p.path == trim_of(path)
            && p.preopens.len() == 0 && p.skipped.len() == 0,
        preopens.len() > 0 && preopens[0] == '/' ==> (provider_of(
            id + seq!['='] + (path + seq![':'] + preopens),
        ) matches Some(p) && p.id == id && p.path == trim_of(path) && p.preopens == preopen_pairs(
            list_items(preopens, ';'),
        ) && p.skipped == preopens_skipped(list_items(preopens, ';'))),
{
    reveal_strlit(":/");
    let mark = seq![':', '/'];
    assert(":/"@ =~= mark);
    law_cut_at_the_first_equals(id, path);
    let whole = path + seq![':'];
    let k = find_from(path, mark, 0);
    law_search_finds_the_first(path, mark, 0);
    if k >= 0 {
        assert(whole.subrange(k, k + 2) =~= path.subrange(k, k + 2));
        assert(occurs_at(whole, mark, k));
    }
    if preopens.len() > 0 && preopens[0] == '/' {
        let rest = path + seq![':'] + preopens;
        law_cut_at_the_first_equals(id, rest);
        law_search_finds_the_first(rest, mark, 0);
        let n = path.len() as int;
        let j = find_from(rest, mark, 0);
        assert(rest.subrange(n, n + 2) =~= mark);
        assert(rest.subrange(n, n + mark.len()) == mark);
        assert(0 <= j <= n);
        if j < n {
            assert(rest.subrange(j, j + mark.len()) == mark);
            assert(whole.subrange(j, j + 2) =~= rest.subrange(j, j + 2));
            assert(occurs_at(whole, mark, j));
        }
        assert(rest.take(n) =~= path);
        assert(rest.skip(n + 1) =~= preopens);
    }
}

/// A provider is forced by its name; an empty name, and "auto" and "none" in any case, lift
/// the force. The answer says which.
pub proof fn law_forced_provider(id: Seq<char>)
    ensures
        ({
            let lifted = id.len() == 0 || lower(id) == "auto"@ || lower(id) == "none"@;
            &&& lifted ==> forced_by(id) is None && forced_sentence(id)
                == "extension_provider override cleared (auto)"@
            &&& !lifted ==> forced_by(id) == Some(id) && forced_sentence(id)
                == "extension_provider forced to '"@ + id + "'"@
        }),
{
    reveal_strlit("auto");
    reveal_strlit("none");
    assert(lower("auto"@) =~= "auto"@);
    assert(lower("none"@) =~= "none"@);
}

/// An entry without an equals sign is kept as it is written; any other is read as the
/// provider that it names.
pub proof fn law_entry_is_read(
    e: ProviderEntry,
    bad: ProviderEntry,
    preopen: ProviderPreopen,
    id: Seq<char>,
    path: Seq<char>,
)
    requires
        lacks(id, '='),
        !has_infix(path + seq![':'], seq![':', '/']),
        reads_entry(e, id + seq!['='] + path),
        reads_entry(bad, id),
    ensures
        e matches ProviderEntry::Provider { id: i, path: p, preopens, skipped } && i@ == id && p@
            == trim_of(path) && preopens@.len() == 0 && skipped@.len() == 0,
        bad matches ProviderEntry::Malformed(t) && t@ == id,
        preopen@ == (preopen.host@, preopen.guest@),
{
    law_provider_entry(id, path, Seq::empty());
    if let ProviderEntry::Provider { preopens, skipped, .. } = e {
        assert(views(preopens@).len() == preopens@.len());
        assert(views(skipped@).len() == skipped@.len());
    }
}

} // verus!
