//! Function prefixes: every function of an extension can be called under the
//! qualified name `<prefix>__<name>` beside its bare name, so that two extensions
//! with functions of the same name can live in one session.
use crate::assoc::{AssocMap, Key};
use crate::json::{get_text, json_get, json_of, json_parsed, member, parse_json, text_member, Json};
use crate::model::views;
use crate::names::NameMap;
use crate::reg;
use crate::text::{
    char_is_alpha, char_is_digit, char_is_word, chars_of, contains, decimal_i128, decimal_of,
    has_infix, is_alpha, is_digit, is_word, join, join_of, law_replace_is_by_character,
    lemma_text_order, occurs_at, replace_char, replace_of, same_text, text_before, text_less,
};
use crate::spelling::lacks;
use vstd::prelude::*;

verus! {

// ---------------------------------------------------------------------------
// Names
// ---------------------------------------------------------------------------

/// A valid unquoted identifier: a letter or underscore, followed by letters, digits
/// and underscores.
pub open spec fn is_ident(s: Seq<char>) -> bool {
    &&& s.len() > 0
    &&& is_alpha(s[0]) || s[0] == '_'
    &&& forall|i: int| 0 <= i < s.len() ==> is_word(#[trigger] s[i])
}

/// Returns the prefix unchanged if it is a valid identifier.
pub fn sanitize_prefix(prefix: &str) -> (r: Option<String>)
    ensures
        match r {
            Some(p) => is_ident(prefix@) && p@ == prefix@,
            None => !is_ident(prefix@),
        },
{
    let cs = chars_of(prefix);
    if cs.len() == 0 || !(char_is_alpha(cs[0]) || cs[0] == '_') {
        return None;
    }
    let mut i: usize = 0;
    while i < cs.len()
        invariant
            cs@ == prefix@,
            i <= cs@.len(),
            forall|j: int| 0 <= j < i ==> is_word(#[trigger] cs@[j]),
        decreases cs@.len() - i,
    {
        if !char_is_word(cs[i]) {
            return None;
        }
        i += 1;
    }
    Some(prefix.to_owned())
}

/// A character that may not stand in an identifier becomes an underscore.
pub open spec fn ident_char(c: char) -> char {
    if is_word(c) {
        c
    } else {
        '_'
    }
}

/// An arbitrary name made into an identifier: character by character, with an
/// underscore in front of a leading digit, and an underscore for an empty name.
pub open spec fn ident_of(raw: Seq<char>) -> Seq<char> {
    let body = raw.map_values(|c: char| ident_char(c));
    if raw.len() == 0 {
        seq!['_']
    } else if is_digit(raw[0]) {
        seq!['_'] + body
    } else {
        body
    }
}

pub fn sanitize_name(raw: &str) -> (r: String)
    ensures
        r@ == ident_of(raw@),
{
    let cs = chars_of(raw);
    let mut out = String::new();
    if cs.len() == 0 {
        out.push('_');
        assert(out@ =~= ident_of(raw@));
        return out;
    }
    if char_is_digit(cs[0]) {
        out.push('_');
    }
    let ghost head = out@;
    let ghost body = raw@.map_values(|c: char| ident_char(c));
    let mut i: usize = 0;
    while i < cs.len()
        invariant
            cs@ == raw@,
            i <= cs@.len(),
            body == raw@.map_values(|c: char| ident_char(c)),
            out@ == head + body.take(i as int),
        decreases cs@.len() - i,
    {
        if char_is_word(cs[i]) {
            out.push(cs[i]);
        } else {
            out.push('_');
        }
        i += 1;
        assert(out@ =~= head + body.take(i as int));
    }
    assert(out@ =~= ident_of(raw@));
    out
}

/// `<prefix>__<name>`
pub open spec fn qualified(prefix: Seq<char>, name: Seq<char>) -> Seq<char> {
    prefix + "__"@ + name
}

fn build_qualified(prefix: &str, name: &str) -> (r: String)
    ensures
        r@ == qualified(prefix@, name@),
{
    let mut out = prefix.to_owned();
    out.append("__");
    out.append(name);
    out
}

/// The prefix and the bare name can be put together: the prefix is an identifier,
/// and the name is not qualified already.
pub open spec fn can_qualify(prefix: Seq<char>, name: Seq<char>) -> bool {
    is_ident(prefix) && !has_infix(name, "__"@)
}

/// The qualified name of a function, or nothing where it is not to have one.
pub fn qualified_name(prefix: &str, bare_name: &str) -> (r: Option<String>)
    ensures
        match r {
            Some(q) => can_qualify(prefix@, bare_name@) && q@ == qualified(prefix@, bare_name@),
            None => !can_qualify(prefix@, bare_name@),
        },
{
    match sanitize_prefix(prefix) {
        None => None,
        Some(p) => {
            if contains(bare_name, "__") {
                return None;
            }
            Some(build_qualified(p.as_str(), bare_name))
        },
    }
}

// ---------------------------------------------------------------------------
// The prefix of an extension
// ---------------------------------------------------------------------------

/// The prefix and the expansion under which an extension's functions are known.
#[derive(Clone, Debug, PartialEq, Eq)]
pub struct PrefixInfo {
    /// The short prefix that is written in SQL.
    pub prefix: String,
    /// The global identity of the extension: a URL, a URN, a reverse-DNS name.
    pub expansion: String,
    /// Neither was declared; both were made up from the extension's name.
    pub is_fallback: bool,
}

/// The declared prefixes and expansions, by extension name.
#[derive(Debug)]
pub struct PrefixRegistry {
    entries: NameMap<(String, String)>,
    /// The extensions whose fallback has been warned about.
    warned_fallback: NameMap<()>,
}

/// The declaration that an entry of the index makes, if it has all three fields.
pub open spec fn declared(j: Json) -> Option<(Seq<char>, (Seq<char>, Seq<char>))> {
    match (text_member(j, "name"@), text_member(j, "prefix"@), text_member(j, "expansion"@)) {
        (Some(name), Some(prefix), Some(expansion)) => Some((name, (prefix, expansion))),
        _ => None,
    }
}

/// The declarations of a list of entries. Of two for one extension the later counts.
pub open spec fn declarations(entries: Seq<Json>) -> Map<Seq<char>, (Seq<char>, Seq<char>)>
    decreases entries.len(),
{
    if entries.len() == 0 {
        Map::empty()
    } else {
        let before = declarations(entries.drop_last());
        match declared(entries.last()) {
            Some((name, pair)) => before.insert(name, pair),
            None => before,
        }
    }
}

/// The declarations of an index document: those of its `extensions` array.
pub open spec fn index_declarations(j: Json) -> Map<Seq<char>, (Seq<char>, Seq<char>)> {
    match member(j, "extensions"@) {
        Some(Json::Array(a)) => declarations(a),
        _ => Map::empty(),
    }
}

/// The expansion that is made up for an extension without a declaration.
pub open spec fn internal_expansion(extension: Seq<char>) -> Seq<char> {
    "ducklink-internal://"@ + extension
}

/// The prefix, the expansion and whether they are made up.
pub open spec fn resolved(
    declarations: Map<Seq<char>, (Seq<char>, Seq<char>)>,
    extension: Seq<char>,
) -> (Seq<char>, Seq<char>, bool) {
    if declarations.contains_key(extension) {
        let (prefix, expansion) = declarations[extension];
        (
            if is_ident(prefix) {
                prefix
            } else {
                ident_of(extension)
            },
            expansion,
            false,
        )
    } else {
        (ident_of(extension), internal_expansion(extension), true)
    }
}

pub open spec fn fallback_warning(extension: Seq<char>) -> Seq<char> {
    "[prefix] WARNING: extension '"@ + extension
        + "' has no prefix/expansion in registry/index.json; using deprecation fallback prefix='"@
        + extension + "', expansion='ducklink-internal://"@ + extension
        + "'. This becomes a hard error after ducklink v1.1 — add `prefix` and `expansion` to its registry entry."@
}

impl Default for PrefixRegistry {
    fn default() -> (r: PrefixRegistry)
        ensures
            r@ == Map::<Seq<char>, (Seq<char>, Seq<char>)>::empty(),
            r.warned() == Set::<Seq<char>>::empty(),
    {
        let r = PrefixRegistry { entries: NameMap::new(), warned_fallback: NameMap::new() };
        assert(r@ =~= Map::<Seq<char>, (Seq<char>, Seq<char>)>::empty());
        assert(r.warned() =~= Set::<Seq<char>>::empty());
        r
    }
}

impl View for PrefixRegistry {
    type V = Map<Seq<char>, (Seq<char>, Seq<char>)>;

    closed spec fn view(&self) -> Map<Seq<char>, (Seq<char>, Seq<char>)> {
        self.entries@.map_values(|p: (String, String)| (p.0@, p.1@))
    }
}

impl PrefixRegistry {
    /// The extensions whose fallback has been warned about.
    pub closed spec fn warned(&self) -> Set<Seq<char>> {
        self.warned_fallback@.dom()
    }

    /// Declares the prefix and the expansion of an extension.
    pub fn declare(&mut self, name: &str, prefix: &str, expansion: &str)
        ensures
            final(self)@ == old(self)@.insert(name@, (prefix@, expansion@)),
            final(self).warned() == old(self).warned(),
    {
        self.entries.insert(name.to_owned(), (prefix.to_owned(), expansion.to_owned()));
        assert(self@ =~= old(self)@.insert(name@, (prefix@, expansion@)));
    }

    /// The declarations of a parsed index.
    pub fn from_index(index: &serde_json::Value) -> (r: PrefixRegistry)
        ensures
            r@ == index_declarations(json_of(*index)),
            r.warned() == Set::<Seq<char>>::empty(),
    {
        let mut registry = PrefixRegistry::default();
        if let Some(list) = json_get(index, "extensions") {
            if let Some(exts) = list.as_array() {
                let ghost elems = exts@.map_values(|x: serde_json::Value| json_of(x));
                let mut i: usize = 0;
                while i < exts.len()
                    invariant
                        i <= exts@.len(),
                        elems == exts@.map_values(|x: serde_json::Value| json_of(x)),
                        registry@ == declarations(elems.take(i as int)),
                        registry.warned() == Set::<Seq<char>>::empty(),
                    decreases exts@.len() - i,
                {
                    let ext = &exts[i];
                    proof {
                        let t = elems.take(i + 1);
                        assert(t.drop_last() =~= elems.take(i as int));
                        assert(t.last() == json_of(*ext));
                    }
                    let name = get_text(ext, "name");
                    let prefix = get_text(ext, "prefix");
                    let expansion = get_text(ext, "expansion");
                    match (name, prefix, expansion) {
                        (Some(name), Some(prefix), Some(expansion)) => {
                            registry.declare(name, prefix, expansion);
                        },
                        _ => {},
                    }
                    i += 1;
                }
                assert(elems.take(exts@.len() as int) =~= elems);
            }
        }
        registry
    }

    /// The declarations of the index file, given its text. Without a text, or with
    /// one that is no JSON, nothing is declared.
    pub fn load_from_index(text: Option<&str>) -> (r: PrefixRegistry)
        ensures
            r@ == match text {
                Some(t) => match json_parsed(t@) {
                    Ok(j) => index_declarations(j),
                    Err(_) => Map::empty(),
                },
                None => Map::empty(),
            },
            r.warned() == Set::<Seq<char>>::empty(),
    {
        match text {
            Some(t) => match parse_json(t) {
                Ok(index) => PrefixRegistry::from_index(&index),
                Err(_) => PrefixRegistry::default(),
            },
            None => PrefixRegistry::default(),
        }
    }

    /// The prefix information of an extension: what is declared, else the fallback.
    pub fn resolve(&self, extension: &str) -> (r: PrefixInfo)
        ensures
            (r.prefix@, r.expansion@, r.is_fallback) == resolved(self@, extension@),
    {
        match self.entries.get(extension) {
            Some(pair) => {
                assert(self@[extension@] == (pair.0@, pair.1@));
                PrefixInfo {
                    prefix: match sanitize_prefix(pair.0.as_str()) {
                        Some(p) => p,
                        None => sanitize_name(extension),
                    },
                    expansion: pair.1.clone(),
                    is_fallback: false,
                }
            },
            None => {
                let mut expansion = "ducklink-internal://".to_owned();
                expansion.append(extension);
                PrefixInfo { prefix: sanitize_name(extension), expansion, is_fallback: true }
            },
        }
    }

    /// The warning that is due for an extension that falls back: once per extension.
    pub fn take_fallback_warning(&mut self, extension: &str) -> (r: Option<String>)
        ensures
            final(self)@ == old(self)@,
            if old(self)@.contains_key(extension@) || old(self).warned().contains(extension@) {
                r is None && final(self).warned() == old(self).warned()
            } else {
                &&& r matches Some(w)
                &&& w@ == fallback_warning(extension@)
                &&& final(self).warned() == old(self).warned().insert(extension@)
            },
    {
        if self.entries.contains(extension) || self.warned_fallback.contains(extension) {
            return None;
        }
        self.warned_fallback.insert(extension.to_owned(), ());
        assert(self.warned() =~= old(self).warned().insert(extension@));
        let mut w = "[prefix] WARNING: extension '".to_owned();
        w.append(extension);
        w.append(
            "' has no prefix/expansion in registry/index.json; using deprecation fallback prefix='",
        );
        w.append(extension);
        w.append("', expansion='ducklink-internal://");
        w.append(extension);
        w.append(
            "'. This becomes a hard error after ducklink v1.1 — add `prefix` and `expansion` to its registry entry.",
        );
        Some(w)
    }
}

// ---------------------------------------------------------------------------
// Shapes
// ---------------------------------------------------------------------------

/// What kind of thing is registered under a name.
#[derive(Clone, Copy, Debug, PartialEq, Eq, Structural, Hash)]
pub enum Shape {
    Scalar,
    Table,
    Aggregate,
    Collation,
    Pragma,
    Macro,
}

impl Shape {
    /// The word for the shape.
    pub open spec fn word(self) -> Seq<char> {
        match self {
            Shape::Scalar => "scalar"@,
            Shape::Table => "table"@,
            Shape::Aggregate => "aggregate"@,
            Shape::Collation => "collation"@,
            Shape::Pragma => "pragma"@,
            Shape::Macro => "macro"@,
        }
    }

    pub fn as_str(self) -> (r: &'static str)
        ensures
            r@ == self.word(),
    {
        match self {
            Shape::Scalar => "scalar",
            Shape::Table => "table",
            Shape::Aggregate => "aggregate",
            Shape::Collation => "collation",
            Shape::Pragma => "pragma",
            Shape::Macro => "macro",
        }
    }

    /// The shape with the given word.
    pub fn from_str(s: &str) -> (r: Option<Shape>)
        ensures
            match r {
                Some(shape) => shape.word() == s@,
                None => forall|shape: Shape| (#[trigger] shape.word()) != s@,
            },
    {
        if same_text(s, "scalar") {
            Some(Shape::Scalar)
        } else if same_text(s, "table") {
            Some(Shape::Table)
        } else if same_text(s, "aggregate") {
            Some(Shape::Aggregate)
        } else if same_text(s, "collation") {
            Some(Shape::Collation)
        } else if same_text(s, "pragma") {
            Some(Shape::Pragma)
        } else if same_text(s, "macro") {
            Some(Shape::Macro)
        } else {
            None
        }
    }
}

// ---------------------------------------------------------------------------
// Registrations by name, shape and arity
// ---------------------------------------------------------------------------

/// A registration's identity: bare name, shape and number of arguments.
#[derive(Clone, Debug, PartialEq, Eq, Hash)]
pub struct CollisionKey {
    pub name: String,
    pub shape: Shape,
    pub n_args: i32,
}

#[verifier::ext_equal]
pub struct KeyModel {
    pub name: Seq<char>,
    pub shape: Shape,
    pub n_args: i32,
}

impl View for CollisionKey {
    type V = KeyModel;

    open spec fn view(&self) -> KeyModel {
        KeyModel { name: self.name@, shape: self.shape, n_args: self.n_args }
    }
}

impl Key for CollisionKey {
    fn same_key(&self, other: &CollisionKey) -> (r: bool) {
        self.name == other.name && self.shape == other.shape && self.n_args == other.n_args
    }
}

// ---------------------------------------------------------------------------
// Collisions
// ---------------------------------------------------------------------------

/// Who has registered each name, shape and arity, in load order, so that a second
/// registration from elsewhere can be warned about.
#[derive(Debug)]
pub struct CollisionTracker {
    seen: AssocMap<CollisionKey, Vec<(String, String)>>,
}

/// What recording one registration found.
#[derive(Clone, Debug, PartialEq, Eq)]
pub struct CollisionReport {
    pub is_collision: bool,
    pub bare_name: String,
    pub shape: Shape,
    pub n_args: i32,
    /// The extensions that have registered the same, in load order; the last one owns
    /// the bare name.
    pub colliding_extensions: Vec<String>,
    /// The qualified form for each of them.
    pub qualified_forms: Vec<String>,
}

/// Pairs of extension and expansion.
pub open spec fn pairs_of(v: Seq<(String, String)>) -> Seq<(Seq<char>, Seq<char>)> {
    v.map_values(|p: (String, String)| (p.0@, p.1@))
}

impl View for CollisionTracker {
    type V = Map<KeyModel, Seq<(Seq<char>, Seq<char>)>>;

    closed spec fn view(&self) -> Map<KeyModel, Seq<(Seq<char>, Seq<char>)>> {
        self.seen@.map_values(|v: Vec<(String, String)>| pairs_of(v@))
    }
}

/// The registrations of a key so far.
pub open spec fn prior_of(
    seen: Map<KeyModel, Seq<(Seq<char>, Seq<char>)>>,
    key: KeyModel,
) -> Seq<(Seq<char>, Seq<char>)> {
    if seen.contains_key(key) {
        seen[key]
    } else {
        Seq::empty()
    }
}

/// One of the registrations is from another expansion.
pub open spec fn collides(prior: Seq<(Seq<char>, Seq<char>)>, expansion: Seq<char>) -> bool {
    exists|i: int| 0 <= i < prior.len() && (#[trigger] prior[i]).1 != expansion
}

/// The registrations with one more at the end; a pair that was there already leaves its
/// old place.
pub open spec fn noted(
    prior: Seq<(Seq<char>, Seq<char>)>,
    extension: Seq<char>,
    expansion: Seq<char>,
) -> Seq<(Seq<char>, Seq<char>)> {
    moved_to_end(prior, (extension, expansion))
}

/// The qualified form to offer for an extension: under the known prefix for the one
/// that is being registered, under its own name for the others.
pub open spec fn offered_form(
    other: Seq<char>,
    extension: Seq<char>,
    prefix: Seq<char>,
    bare_name: Seq<char>,
) -> Seq<char> {
    if other == extension {
        qualified(prefix, bare_name)
    } else {
        qualified(ident_of(other), bare_name)
    }
}

impl Default for CollisionTracker {
    fn default() -> (r: CollisionTracker)
        ensures
            r@ == Map::<KeyModel, Seq<(Seq<char>, Seq<char>)>>::empty(),
    {
        let r = CollisionTracker { seen: AssocMap::new() };
        assert(r@ =~= Map::<KeyModel, Seq<(Seq<char>, Seq<char>)>>::empty());
        r
    }
}

impl CollisionTracker {
    /// Records a registration.
    pub fn record(
        &mut self,
        extension: &str,
        expansion: &str,
        info: &PrefixInfo,
        bare_name: &str,
        shape: Shape,
        n_args: i32,
    ) -> (r: CollisionReport)
        ensures
            ({
                let key = KeyModel { name: bare_name@, shape, n_args };
                let prior = prior_of(old(self)@, key);
                let now = noted(prior, extension@, expansion@);
                &&& final(self)@ == old(self)@.insert(key, now)
                &&& r.is_collision == collides(prior, expansion@)
                &&& r.bare_name@ == bare_name@
                &&& r.shape == shape
                &&& r.n_args == n_args
                &&& views(r.colliding_extensions@) == now.map_values(
                    |p: (Seq<char>, Seq<char>)| p.0,
                )
                &&& views(r.qualified_forms@) == now.map_values(
                    |p: (Seq<char>, Seq<char>)|
                        offered_form(p.0, extension@, info.prefix@, bare_name@),
                )
            }),
            r.colliding_extensions@.len() > 0,
            r.colliding_extensions@.last()@ == extension@,
    {
        let ghost key = KeyModel { name: bare_name@, shape, n_args };
        let ghost prior = prior_of(self@, key);
        let mut entry: Vec<(String, String)> = Vec::new();
        let mut is_collision: bool = false;
        let wanted = CollisionKey { name: bare_name.to_owned(), shape, n_args };
        match self.seen.get(&wanted) {
            Some(list) => {
                assert(self@.contains_key(key));
                assert(prior == pairs_of(list@));
                let mut i: usize = 0;
                while i < list.len()
                    invariant
                        i <= list@.len(),
                        prior == pairs_of(list@),
                        pairs_of(entry@) == without(prior.take(i as int), (extension@, expansion@)),
                        is_collision == collides(prior.take(i as int), expansion@),
                    decreases list@.len() - i,
                {
                    let e = &list[i].0;
                    let x = &list[i].1;
                    let other: bool = !same_text(x.as_str(), expansion);
                    let same: bool = same_text(e.as_str(), extension) && !other;
                    let ghost before = entry@;
                    if !same {
                        entry.push((e.clone(), x.clone()));
                    }
                    proof {
                        let t = prior.take(i as int);
                        let t2 = prior.take(i + 1);
                        assert(prior[i as int] == (e@, x@));
                        assert(t2 =~= t.push((e@, x@)));
                        assert(t2.drop_last() =~= t);
                        if !same {
                            assert(pairs_of(entry@) =~= pairs_of(before).push((e@, x@)));
                        }
                        assert forall|k: int| 0 <= k < t.len() implies t2[k] == t[k] by {}
                        if other {
                            assert(t2[i as int].1 != expansion@);
                        }
                        if collides(t, expansion@) {
                            let k = choose|k: int| 0 <= k < t.len() && (#[trigger] t[k]).1 != expansion@;
                            assert(t2[k].1 != expansion@);
                        }
                        if collides(t2, expansion@) && !other {
                            let k = choose|k: int| 0 <= k < t2.len() && (#[trigger] t2[k]).1 != expansion@;
                            assert(t[k].1 != expansion@);
                        }
                    }
                    if other {
                        is_collision = true;
                    }
                    i += 1;
                }
                assert(prior.take(list@.len() as int) =~= prior);
            },
            None => {
                assert(pairs_of(entry@) =~= without(prior, (extension@, expansion@)));
            },
        }
        let ghost listed = entry@;
        entry.push((extension.to_owned(), expansion.to_owned()));
        assert(pairs_of(entry@) =~= pairs_of(listed).push((extension@, expansion@)));
        let ghost now = noted(prior, extension@, expansion@);
        assert(pairs_of(entry@) == now);
        let mut colliding_extensions: Vec<String> = Vec::new();
        let mut qualified_forms: Vec<String> = Vec::new();
        let mut k: usize = 0;
        while k < entry.len()
            invariant
                k <= entry@.len(),
                pairs_of(entry@) == now,
                colliding_extensions@.len() == k,
                qualified_forms@.len() == k,
                forall|j: int| 0 <= j < k ==> (#[trigger] colliding_extensions@[j])@ == now[j].0,
                forall|j: int|
                    0 <= j < k ==> (#[trigger] qualified_forms@[j])@ == offered_form(
                        now[j].0,
                        extension@,
                        info.prefix@,
                        bare_name@,
                    ),
            decreases entry@.len() - k,
        {
            let e = &entry[k].0;
            assert(now[k as int].0 == e@);
            colliding_extensions.push(e.clone());
            if same_text(e.as_str(), extension) {
                match qualified_name(info.prefix.as_str(), bare_name) {
                    Some(q) => qualified_forms.push(q),
                    None => qualified_forms.push(build_qualified(info.prefix.as_str(), bare_name)),
                }
            } else {
                qualified_forms.push(build_qualified(sanitize_name(e.as_str()).as_str(), bare_name));
            }
            k += 1;
        }
        assert(views(colliding_extensions@) =~= now.map_values(|p: (Seq<char>, Seq<char>)| p.0));
        assert(colliding_extensions@[now.len() - 1]@ == extension@);
        assert(views(qualified_forms@) =~= now.map_values(
            |p: (Seq<char>, Seq<char>)| offered_form(p.0, extension@, info.prefix@, bare_name@),
        ));
        self.seen.insert(wanted, entry);
        assert(self@ =~= old(self)@.insert(key, now));
        CollisionReport {
            is_collision,
            bare_name: bare_name.to_owned(),
            shape,
            n_args,
            colliding_extensions,
            qualified_forms,
        }
    }
}

/// The extension that owns the bare name: the last one that registered it.
pub open spec fn owner_text(extensions: Seq<Seq<char>>) -> Seq<char> {
    if extensions.len() == 0 {
        "?"@
    } else {
        extensions.last()
    }
}

/// The text of the warning about a collision.
pub open spec fn collision_text(
    name: Seq<char>,
    shape: Shape,
    n_args: i32,
    extensions: Seq<Seq<char>>,
    forms: Seq<Seq<char>>,
) -> Seq<char> {
    "[prefix] WARNING: bare name '"@ + name + "' ("@ + shape.word() + "/"@ + decimal_of(n_args as int)
        + "-arg) is registered by multiple extensions ["@ + join_of(extensions, ", "@) + "]; bare '"@
        + name + "(...)' now resolves to '"@ + owner_text(extensions)
        + "' (last loaded). Use a qualified form to disambiguate: "@ + join_of(forms, ", "@) + "."@
}

pub fn format_collision_warning(report: &CollisionReport) -> (r: String)
    ensures
        r@ == collision_text(
            report.bare_name@,
            report.shape,
            report.n_args,
            views(report.colliding_extensions@),
            views(report.qualified_forms@),
        ),
{
    let n: usize = report.colliding_extensions.len();
    let owner: String = if n == 0 {
        "?".to_owned()
    } else {
        report.colliding_extensions[n - 1].clone()
    };
    let mut w = "[prefix] WARNING: bare name '".to_owned();
    w.append(report.bare_name.as_str());
    w.append("' (");
    w.append(report.shape.as_str());
    w.append("/");
    w.append(decimal_i128(report.n_args as i128).as_str());
    w.append("-arg) is registered by multiple extensions [");
    w.append(join(&report.colliding_extensions, ", ").as_str());
    w.append("]; bare '");
    w.append(report.bare_name.as_str());
    w.append("(...)' now resolves to '");
    w.append(owner.as_str());
    w.append("' (last loaded). Use a qualified form to disambiguate: ");
    w.append(join(&report.qualified_forms, ", ").as_str());
    w.append(".");
    w
}

// ---------------------------------------------------------------------------
// The prefix tables
// ---------------------------------------------------------------------------

/// One row for the prefix tables.
#[derive(Clone, Debug, PartialEq, Eq)]
pub struct PrefixRow {
    pub prefix: String,
    pub expansion: String,
    pub extension: String,
    pub function_name: String,
    pub shape: &'static str,
    pub n_args: i32,
}

/// Creates the prefix tables where they are missing.
pub const PREFIX_SCHEMA_SQL: &'static str = "\
CREATE TABLE IF NOT EXISTS __ducklink_prefix (\
  name VARCHAR PRIMARY KEY,\
  expansion VARCHAR NOT NULL,\
  description VARCHAR,\
  created_at BIGINT NOT NULL,\
  last_used_at BIGINT\
);\
CREATE TABLE IF NOT EXISTS __ducklink_prefix_function (\
  expansion VARCHAR NOT NULL,\
  function_name VARCHAR NOT NULL,\
  extension_name VARCHAR,\
  shape VARCHAR NOT NULL,\
  n_args INTEGER NOT NULL,\
  registered_at BIGINT NOT NULL,\
  PRIMARY KEY (expansion, function_name, shape, n_args)\
);\
CREATE TABLE IF NOT EXISTS __ducklink_prefix_pin (\
  function_name VARCHAR NOT NULL,\
  shape VARCHAR NOT NULL,\
  n_args INTEGER NOT NULL,\
  expansion VARCHAR NOT NULL,\
  set_at BIGINT NOT NULL,\
  PRIMARY KEY (function_name, shape, n_args)\
);";

/// A text as it stands between the quotes of an SQL literal: quotes are doubled.
pub open spec fn sql_escaped(s: Seq<char>) -> Seq<char> {
    replace_of(s, '\'', "''"@)
}

pub fn sql_lit(s: &str) -> (r: String)
    ensures
        r@ == sql_escaped(s@),
{
    replace_char(s, '\'', "''")
}

/// One pair comes before another: by prefix, then by expansion.
pub open spec fn pair_less(a: (Seq<char>, Seq<char>), b: (Seq<char>, Seq<char>)) -> bool {
    text_less(a.0, b.0) || (a.0 == b.0 && text_less(a.1, b.1))
}

/// A sorted list of pairs with one more in its place; a pair that is there already
/// is not repeated.
pub open spec fn with_pair(
    list: Seq<(Seq<char>, Seq<char>)>,
    p: (Seq<char>, Seq<char>),
) -> Seq<(Seq<char>, Seq<char>)>
    decreases list.len(),
{
    if list.len() == 0 {
        seq![p]
    } else if list[0] == p {
        list
    } else if pair_less(p, list[0]) {
        seq![p] + list
    } else {
        seq![list[0]] + with_pair(list.drop_first(), p)
    }
}

/// The prefix and the expansion of a row.
pub open spec fn row_pair(r: PrefixRow) -> (Seq<char>, Seq<char>) {
    (r.prefix@, r.expansion@)
}

/// The different pairs of prefix and expansion among the rows, sorted.
pub open spec fn distinct_pairs(rows: Seq<PrefixRow>) -> Seq<(Seq<char>, Seq<char>)>
    decreases rows.len(),
{
    if rows.len() == 0 {
        Seq::empty()
    } else {
        with_pair(distinct_pairs(rows.drop_last()), row_pair(rows.last()))
    }
}

pub open spec fn prefix_insert_sql(p: (Seq<char>, Seq<char>), now: i64) -> Seq<char> {
    "INSERT OR IGNORE INTO __ducklink_prefix(name, expansion, created_at) VALUES ('"@ + sql_escaped(
        p.0,
    ) + "', '"@ + sql_escaped(p.1) + "', "@ + decimal_of(now as int) + ");"@
}

pub open spec fn function_insert_sql(r: PrefixRow, now: i64) -> Seq<char> {
    "INSERT OR IGNORE INTO __ducklink_prefix_function(expansion, function_name, extension_name, shape, n_args, registered_at) VALUES ('"@
        + sql_escaped(r.expansion@) + "', '"@ + sql_escaped(r.function_name@) + "', '"@
        + sql_escaped(r.extension@) + "', '"@ + sql_escaped(r.shape@) + "', "@ + decimal_of(
        r.n_args as int,
    ) + ", "@ + decimal_of(now as int) + ");"@
}

/// The statements for the pairs, one after another.
pub open spec fn prefix_inserts(pairs: Seq<(Seq<char>, Seq<char>)>, now: i64) -> Seq<char>
    decreases pairs.len(),
{
    if pairs.len() == 0 {
        Seq::empty()
    } else {
        prefix_inserts(pairs.drop_last(), now) + prefix_insert_sql(pairs.last(), now)
    }
}

/// The statements for the rows, one after another.
pub open spec fn function_inserts(rows: Seq<PrefixRow>, now: i64) -> Seq<char>
    decreases rows.len(),
{
    if rows.len() == 0 {
        Seq::empty()
    } else {
        function_inserts(rows.drop_last(), now) + function_insert_sql(rows.last(), now)
    }
}

/// The script that creates the tables and enters the rows at the given time.
pub open spec fn prefix_table_script(rows: Seq<PrefixRow>, now: i64) -> Seq<char> {
    PREFIX_SCHEMA_SQL@ + prefix_inserts(distinct_pairs(rows), now) + function_inserts(rows, now)
}

fn pair_before(a: &(String, String), p0: &str, p1: &str) -> (r: bool)
    ensures
        r == pair_less((p0@, p1@), (a.0@, a.1@)),
{
    text_before(p0, a.0.as_str()) || (same_text(p0, a.0.as_str()) && text_before(p1, a.1.as_str()))
}

fn insert_pair(list: &mut Vec<(String, String)>, p0: &str, p1: &str)
    ensures
        pairs_of(final(list)@) == with_pair(pairs_of(old(list)@), (p0@, p1@)),
{
    let ghost all = pairs_of(list@);
    let ghost p = (p0@, p1@);
    let mut i: usize = 0;
    assert(all.skip(0) =~= all);
    assert(all.take(0) + with_pair(all.skip(0), p) =~= with_pair(all, p));
    while i < list.len()
        invariant
            list@ == old(list)@,
            all == pairs_of(list@),
            p == (p0@, p1@),
            i <= list@.len(),
            with_pair(all, p) == all.take(i as int) + with_pair(all.skip(i as int), p),
        decreases list@.len() - i,
    {
        let ghost rest = all.skip(i as int);
        assert(rest[0] == (list@[i as int].0@, list@[i as int].1@));
        if same_text(list[i].0.as_str(), p0) && same_text(list[i].1.as_str(), p1) {
            assert(all.take(i as int) + rest =~= all);
            return;
        }
        if pair_before(&list[i], p0, p1) {
            list.insert(i, (p0.to_owned(), p1.to_owned()));
            assert(pairs_of(list@) =~= all.take(i as int) + (seq![p] + rest));
            return;
        }
        assert(rest.drop_first() =~= all.skip(i + 1));
        assert(all.take(i as int) + (seq![rest[0]] + with_pair(all.skip(i + 1), p)) =~= all.take(
            i + 1,
        ) + with_pair(all.skip(i + 1), p));
        i += 1;
    }
    list.push((p0.to_owned(), p1.to_owned()));
    assert(all.skip(i as int) =~= Seq::<(Seq<char>, Seq<char>)>::empty());
    assert(pairs_of(list@) =~= all.take(i as int) + seq![p]);
}

/// The script for the given rows at the given time, in seconds since 1970.
pub fn prefix_table_sql(rows: &Vec<PrefixRow>, now: i64) -> (r: String)
    ensures
        r@ == prefix_table_script(rows@, now),
{
    let mut pairs: Vec<(String, String)> = Vec::new();
    let mut i: usize = 0;
    assert(pairs_of(pairs@) =~= distinct_pairs(rows@.take(0)));
    while i < rows.len()
        invariant
            i <= rows@.len(),
            pairs_of(pairs@) == distinct_pairs(rows@.take(i as int)),
        decreases rows@.len() - i,
    {
        assert(rows@.take(i + 1).drop_last() =~= rows@.take(i as int));
        insert_pair(&mut pairs, rows[i].prefix.as_str(), rows[i].expansion.as_str());
        i += 1;
    }
    assert(rows@.take(rows@.len() as int) =~= rows@);
    let stamp = decimal_i128(now as i128);
    let ghost all = distinct_pairs(rows@);
    let mut heads = String::new();
    let mut k: usize = 0;
    while k < pairs.len()
        invariant
            k <= pairs@.len(),
            all == pairs_of(pairs@),
            stamp@ == decimal_of(now as int),
            heads@ == prefix_inserts(all.take(k as int), now),
        decreases pairs@.len() - k,
    {
        let mut one =
            "INSERT OR IGNORE INTO __ducklink_prefix(name, expansion, created_at) VALUES ('".to_owned();
        one.append(sql_lit(pairs[k].0.as_str()).as_str());
        one.append("', '");
        one.append(sql_lit(pairs[k].1.as_str()).as_str());
        one.append("', ");
        one.append(stamp.as_str());
        one.append(");");
        heads.append(one.as_str());
        assert(all.take(k + 1).drop_last() =~= all.take(k as int));
        k += 1;
    }
    assert(all.take(all.len() as int) =~= all);
    let mut functions = String::new();
    let mut j: usize = 0;
    while j < rows.len()
        invariant
            j <= rows@.len(),
            stamp@ == decimal_of(now as int),
            functions@ == function_inserts(rows@.take(j as int), now),
        decreases rows@.len() - j,
    {
        let row = &rows[j];
        let mut one =
            "INSERT OR IGNORE INTO __ducklink_prefix_function(expansion, function_name, extension_name, shape, n_args, registered_at) VALUES ('".to_owned();
        one.append(sql_lit(row.expansion.as_str()).as_str());
        one.append("', '");
        one.append(sql_lit(row.function_name.as_str()).as_str());
        one.append("', '");
        one.append(sql_lit(row.extension.as_str()).as_str());
        one.append("', '");
        one.append(sql_lit(row.shape).as_str());
        one.append("', ");
        one.append(decimal_i128(row.n_args as i128).as_str());
        one.append(", ");
        one.append(stamp.as_str());
        one.append(");");
        functions.append(one.as_str());
        assert(rows@.take(j + 1).drop_last() =~= rows@.take(j as int));
        j += 1;
    }
    let mut sql = PREFIX_SCHEMA_SQL.to_owned();
    sql.append(heads.as_str());
    sql.append(functions.as_str());
    sql
}

/// `std::time::SystemTime::elapsed` of the Unix epoch: the whole seconds since 1970,
/// or nothing where the clock stands before it. The time can be any.
#[verifier::external_body]
fn seconds_since_epoch() -> (r: Option<u64>) {
    std::time::UNIX_EPOCH.elapsed().ok().map(|d| d.as_secs())
}

/// The number of seconds as a table holds it; zero where the clock gives none.
pub fn epoch_stamp(seconds: Option<u64>) -> (r: i64)
    ensures
        r == match seconds {
            Some(s) => if s <= i64::MAX {
                s as int
            } else {
                s - 0x1_0000_0000_0000_0000
            },
            None => 0int,
        },
{
    match seconds {
        Some(s) => {
            if s <= i64::MAX as u64 {
                s as i64
            } else {
                -((u64::MAX - s) as i64) - 1
            }
        },
        None => 0,
    }
}

/// The script for the given rows at the present time.
pub fn build_prefix_table_sql(rows: &Vec<PrefixRow>) -> (r: String)
    ensures
        exists|now: i64| r@ == prefix_table_script(rows@, now),
{
    let now: i64 = epoch_stamp(seconds_since_epoch());
    prefix_table_sql(rows, now)
}

// ---------------------------------------------------------------------------
// Retained registrations
// ---------------------------------------------------------------------------

/// A bare registration that can be forwarded again, so that its extension owns the
/// bare name once more.
#[derive(Clone, Debug)]
pub enum RetainedDef {
    Scalar(reg::ScalarReg),
    Table(reg::TableReg),
    Aggregate(reg::AggregateReg),
    Macro(reg::MacroReg),
    /// Name, transforming scalar, combinable.
    Collation(String, String, bool),
    /// Name, extension, callback handle.
    Pragma(String, String, u32),
}

/// A retained registration's identity: what is registered, and by whom.
#[derive(Clone, Debug, PartialEq, Eq, Hash)]
pub struct RetainedKey {
    pub name: String,
    pub shape: Shape,
    pub n_args: i32,
    pub expansion: String,
}

#[verifier::ext_equal]
pub struct RetainedModel {
    pub key: KeyModel,
    pub expansion: Seq<char>,
}

impl View for RetainedKey {
    type V = RetainedModel;

    open spec fn view(&self) -> RetainedModel {
        RetainedModel {
            key: KeyModel { name: self.name@, shape: self.shape, n_args: self.n_args },
            expansion: self.expansion@,
        }
    }
}

/// Every bare registration of the session, and per name, shape and arity the
/// expansions in load order.
#[derive(Debug)]
pub struct RetainedDefs {
    defs: AssocMap<RetainedKey, RetainedDef>,
    order: AssocMap<CollisionKey, Vec<String>>,
    prefix_of: NameMap<String>,
}

impl Key for RetainedKey {
    fn same_key(&self, other: &RetainedKey) -> (r: bool) {
        self.name == other.name && self.shape == other.shape && self.n_args == other.n_args
            && self.expansion == other.expansion
    }
}

/// The list without `e`, and `e` at its end.
pub open spec fn moved_to_end<A>(list: Seq<A>, e: A) -> Seq<A> {
    without(list, e).push(e)
}

/// The list without any `e`.
pub open spec fn without<A>(list: Seq<A>, e: A) -> Seq<A>
    decreases list.len(),
{
    if list.len() == 0 {
        Seq::empty()
    } else if list.last() == e {
        without(list.drop_last(), e)
    } else {
        without(list.drop_last(), e).push(list.last())
    }
}

/// The expansions of a key in load order.
pub open spec fn order_of(orders: Map<KeyModel, Seq<Seq<char>>>, key: KeyModel) -> Seq<Seq<char>> {
    if orders.contains_key(key) {
        orders[key]
    } else {
        Seq::empty()
    }
}

impl Default for RetainedDefs {
    fn default() -> (r: RetainedDefs)
        ensures
            r.wf(),
            r.retained() == Map::<RetainedModel, RetainedDef>::empty(),
            r.orders() == Map::<KeyModel, Seq<Seq<char>>>::empty(),
            r.prefixes() == Map::<Seq<char>, Seq<char>>::empty(),
    {
        let r = RetainedDefs { defs: AssocMap::new(), order: AssocMap::new(), prefix_of: NameMap::new() };
        assert(r.retained() =~= Map::<RetainedModel, RetainedDef>::empty());
        assert(r.orders() =~= Map::<KeyModel, Seq<Seq<char>>>::empty());
        assert(r.prefixes() =~= Map::<Seq<char>, Seq<char>>::empty());
        r
    }
}

impl RetainedDefs {
    /// No name, shape and arity is listed twice.
    pub closed spec fn wf(&self) -> bool {
        self.order.wf()
    }

    /// The registrations by identity.
    pub closed spec fn retained(&self) -> Map<RetainedModel, RetainedDef> {
        self.defs@
    }

    /// The expansions in load order, by name, shape and arity.
    pub closed spec fn orders(&self) -> Map<KeyModel, Seq<Seq<char>>> {
        self.order@.map_values(|v: Vec<String>| views(v@))
    }

    /// The prefix of each expansion.
    pub closed spec fn prefixes(&self) -> Map<Seq<char>, Seq<char>> {
        self.prefix_of@.map_values(|p: String| p@)
    }

    /// Retains a registration. Its expansion becomes the newest of its name, shape
    /// and arity.
    pub fn insert(
        &mut self,
        expansion: &str,
        prefix: &str,
        name: &str,
        shape: Shape,
        n_args: i32,
        def: RetainedDef,
    )
        ensures
            old(self).wf() ==> final(self).wf(),
            ({
                let key = KeyModel { name: name@, shape, n_args };
                &&& final(self).retained() == old(self).retained().insert(
                    (RetainedModel { key, expansion: expansion@ }),
                    def,
                )
                &&& final(self).orders() == old(self).orders().insert(
                    key,
                    moved_to_end(order_of(old(self).orders(), key), expansion@),
                )
                &&& final(self).prefixes() == old(self).prefixes().insert(expansion@, prefix@)
            }),
    {
        let ghost key = KeyModel { name: name@, shape, n_args };
        let entry = RetainedKey {
            name: name.to_owned(),
            shape,
            n_args,
            expansion: expansion.to_owned(),
        };
        self.defs.insert(entry, def);
        self.prefix_of.insert(expansion.to_owned(), prefix.to_owned());
        assert(self.prefixes() =~= old(self).prefixes().insert(expansion@, prefix@));
        let mut list: Vec<String> = Vec::new();
        let ghost prior = order_of(self.orders(), key);
        let wanted = CollisionKey { name: name.to_owned(), shape, n_args };
        match self.order.get(&wanted) {
            Some(current) => {
                assert(self.orders().contains_key(key));
                assert(prior == views(current@));
                let mut k: usize = 0;
                while k < current.len()
                    invariant
                        k <= current@.len(),
                        prior == views(current@),
                        views(list@) == without(prior.take(k as int), expansion@),
                    decreases current@.len() - k,
                {
                    let ghost t = list@;
                    assert(prior.take(k + 1).drop_last() =~= prior.take(k as int));
                    assert(prior.take(k + 1).last() == current@[k as int]@);
                    if !same_text(current[k].as_str(), expansion) {
                        list.push(current[k].clone());
                        assert(views(list@) =~= views(t).push(current@[k as int]@));
                    }
                    k += 1;
                }
                assert(prior.take(current@.len() as int) =~= prior);
            },
            None => {
                assert(views(list@) =~= without(prior, expansion@));
            },
        }
        let ghost t = list@;
        list.push(expansion.to_owned());
        assert(views(list@) =~= views(t).push(expansion@));
        let ghost orders0 = self.orders();
        self.order.insert(wanted, list);
        assert(self.orders() =~= orders0.insert(key, moved_to_end(prior, expansion@)));
    }

    /// The prefix under which an expansion registered.
    pub fn prefix_for(&self, expansion: &str) -> (r: Option<&str>)
        ensures
            match r {
                Some(p) => self.prefixes().contains_key(expansion@) && self.prefixes()[expansion@] == p@,
                None => !self.prefixes().contains_key(expansion@),
            },
    {
        match self.prefix_of.get(expansion) {
            Some(p) => Some(p.as_str()),
            None => None,
        }
    }

    /// The registration of a name, shape and arity by an expansion.
    pub fn get(&self, name: &str, shape: Shape, n_args: i32, expansion: &str) -> (r: Option<
        &RetainedDef,
    >)
        ensures
            ({
                let key = RetainedModel {
                    key: KeyModel { name: name@, shape, n_args },
                    expansion: expansion@,
                };
                match r {
                    Some(d) => self.retained().contains_key(key) && self.retained()[key] == *d,
                    None => !self.retained().contains_key(key),
                }
            }),
    {
        self.defs.get(
            &RetainedKey {
                name: name.to_owned(),
                shape,
                n_args,
                expansion: expansion.to_owned(),
            },
        )
    }

    /// The expansion that owns the bare name by default: the one loaded last.
    pub fn default_owner(&self, name: &str, shape: Shape, n_args: i32) -> (r: Option<&str>)
        ensures
            ({
                let list = order_of(self.orders(), (KeyModel { name: name@, shape, n_args }));
                match r {
                    Some(e) => list.len() > 0 && e@ == list.last(),
                    None => list.len() == 0,
                }
            }),
    {
        let ghost key = KeyModel { name: name@, shape, n_args };
        match self.order.get(&CollisionKey { name: name.to_owned(), shape, n_args }) {
            Some(list) => {
                assert(self.orders().contains_key(key));
                assert(self.orders()[key] == views(list@));
                let n: usize = list.len();
                if n == 0 {
                    None
                } else {
                    Some(list[n - 1].as_str())
                }
            },
            None => None,
        }
    }

    /// Every shape and arity that is registered under a name, once each, with its
    /// expansions in load order.
    pub fn shapes_for_name(&self, name: &str) -> (r: Vec<(Shape, i32, Vec<String>)>)
        requires
            self.wf(),
        ensures
            forall|i: int|
                0 <= i < r@.len() ==> {
                    let key = KeyModel { name: name@, shape: (#[trigger] r@[i]).0, n_args: r@[i].1 };
                    self.orders().contains_key(key) && self.orders()[key] == views(r@[i].2@)
                },
            forall|key: KeyModel| #[trigger]
                self.orders().contains_key(key) && key.name == name@ ==> exists|i: int|
                    0 <= i < r@.len() && (#[trigger] r@[i]).0 == key.shape && r@[i].1 == key.n_args,
            forall|i: int, j: int|
                0 <= i < j < r@.len() ==> (#[trigger] r@[i]).0 != (#[trigger] r@[j]).0 || r@[i].1
                    != r@[j].1,
    {
        let mut out: Vec<(Shape, i32, Vec<String>)> = Vec::new();
        let ghost listed = self.order.listed();
        // The place in the listing that each result came from.
        let ghost mut from: Seq<int> = Seq::empty();
        proof {
            self.order.lemma_listed();
        }
        let mut i: usize = 0;
        while i < self.order.len()
            invariant
                i <= listed.len(),
                self.wf(),
                listed == self.order.listed(),
                from.len() == out@.len(),
                forall|k: int|
                    0 <= k < out@.len() ==> {
                        &&& 0 <= #[trigger] from[k] < i
                        &&& listed[from[k]].0@ == (KeyModel {
                            name: name@,
                            shape: out@[k].0,
                            n_args: out@[k].1,
                        })
                        &&& views(listed[from[k]].1@) == views(out@[k].2@)
                    },
                forall|k: int, m: int| 0 <= k < m < from.len() ==> #[trigger] from[k] < #[trigger] from[m],
                forall|q: int|
                    0 <= q < i && (#[trigger] listed[q]).0.name@ == name@ ==> exists|k: int|
                        0 <= k < from.len() && #[trigger] from[k] == q,
            decreases listed.len() - i,
        {
            let e = self.order.entry(i);
            let ghost from0 = from;
            let ghost out0 = out@;
            if same_text(e.0.name.as_str(), name) {
                let mut list: Vec<String> = Vec::new();
                let mut k: usize = 0;
                while k < e.1.len()
                    invariant
                        k <= e.1@.len(),
                        list@.len() == k,
                        forall|j: int| 0 <= j < k ==> (#[trigger] list@[j])@ == e.1@[j]@,
                    decreases e.1@.len() - k,
                {
                    list.push(e.1[k].clone());
                    k += 1;
                }
                assert(views(list@) =~= views(e.1@));
                out.push((e.0.shape, e.0.n_args, list));
                proof {
                    from = from.push(i as int);
                    assert(from[out0.len() as int] == i);
                    assert forall|q: int|
                        0 <= q < i + 1 && (#[trigger] listed[q]).0.name@ == name@ implies exists|k: int|
                        0 <= k < from.len() && #[trigger] from[k] == q by {
                        if q < i {
                            let k = choose|k: int| 0 <= k < from0.len() && #[trigger] from0[k] == q;
                            assert(from[k] == q);
                        }
                    }
                }
            }
            i += 1;
        }
        proof {
            assert forall|k: int| 0 <= k < out@.len() implies {
                let key = KeyModel { name: name@, shape: (#[trigger] out@[k]).0, n_args: out@[k].1 };
                self.orders().contains_key(key) && self.orders()[key] == views(out@[k].2@)
            } by {
                let q = from[k];
                assert(self.order@.contains_key(listed[q].0@));
                assert(self.order@[listed[q].0@] == listed[q].1);
            }
            assert forall|key: KeyModel| #[trigger]
                self.orders().contains_key(key) && key.name == name@ implies exists|k: int|
                0 <= k < out@.len() && (#[trigger] out@[k]).0 == key.shape && out@[k].1 == key.n_args by {
                assert(self.order@.contains_key(key));
                let q = choose|q: int| 0 <= q < listed.len() && (#[trigger] listed[q]).0@ == key;
                let k = choose|k: int| 0 <= k < from.len() && #[trigger] from[k] == q;
                assert(out@[k].0 == key.shape && out@[k].1 == key.n_args);
            }
            assert forall|k: int, m: int| 0 <= k < m < out@.len() implies (#[trigger] out@[k]).0 != (
            #[trigger] out@[m]).0 || out@[k].1 != out@[m].1 by {
                assert(from[k] < from[m]);
                assert(listed[from[k]].0@ != listed[from[m]].0@);
            }
        }
        out
    }
}

// ---------------------------------------------------------------------------
// Laws
// ---------------------------------------------------------------------------

/// Whatever the name, the identifier made from it is a valid prefix, and a valid
/// prefix is its own identifier.
pub proof fn law_made_identifier_is_valid(raw: Seq<char>)
    ensures
        is_ident(ident_of(raw)),
        is_ident(raw) ==> ident_of(raw) == raw,
        ident_of(ident_of(raw)) == ident_of(raw),
{
    let id = ident_of(raw);
    assert forall|i: int| 0 <= i < id.len() implies is_word(#[trigger] id[i]) by {}
    if is_ident(raw) {
        assert(id =~= raw);
    }
    assert(ident_of(id) =~= id);
}

/// The prefix that is resolved for an extension is always a valid prefix, declared
/// or not.
pub proof fn law_resolved_prefix_is_valid(
    declarations: Map<Seq<char>, (Seq<char>, Seq<char>)>,
    extension: Seq<char>,
)
    ensures
        is_ident(resolved(declarations, extension).0),
        resolved(declarations, extension).2 == !declarations.contains_key(extension),
{
    law_made_identifier_is_valid(extension);
}

/// A qualified name is not qualified again, whatever the prefix.
pub proof fn law_no_double_prefix(prefix: Seq<char>, name: Seq<char>, other: Seq<char>)
    ensures
        !can_qualify(other, qualified(prefix, name)),
{
    let q = qualified(prefix, name);
    assert(q.subrange(prefix.len() as int, (prefix.len() + "__"@.len()) as int) =~= "__"@);
    assert(occurs_at(q, "__"@, prefix.len() as int));
}

/// The two ways to read one text as a qualified name: an underscore at the end of
/// one prefix stands at the beginning of the other's name.
pub open spec fn shifted(p1: Seq<char>, n1: Seq<char>, p2: Seq<char>, n2: Seq<char>) -> bool {
    p1 == p2 + seq!['_'] && n2 == seq!['_'] + n1
}

/// A qualified name belongs to one prefix and one bare name, except where a prefix
/// ends in the underscore with which a name begins.
pub proof fn law_qualified_names_are_unique(
    p1: Seq<char>,
    n1: Seq<char>,
    p2: Seq<char>,
    n2: Seq<char>,
)
    requires
        can_qualify(p1, n1),
        can_qualify(p2, n2),
        qualified(p1, n1) == qualified(p2, n2),
        !shifted(p1, n1, p2, n2),
        !shifted(p2, n2, p1, n1),
    ensures
        p1 == p2,
        n1 == n2,
{
    reveal_strlit("__");
    if p1.len() == p2.len() {
        let q1 = qualified(p1, n1);
        let q2 = qualified(p2, n2);
        assert(p1 =~= q1.take(p1.len() as int));
        assert(p2 =~= q2.take(p2.len() as int));
        assert(n1 =~= q1.skip(p1.len() as int + 2));
        assert(n2 =~= q2.skip(p2.len() as int + 2));
    } else if p1.len() > p2.len() {
        lemma_qualified_shift(p1, n1, p2, n2);
    } else {
        lemma_qualified_shift(p2, n2, p1, n1);
    }
}

proof fn lemma_qualified_chars(p: Seq<char>, n: Seq<char>)
    ensures
        qualified(p, n).len() == p.len() + 2 + n.len(),
        forall|i: int| 0 <= i < p.len() ==> #[trigger] qualified(p, n)[i] == p[i],
        qualified(p, n)[p.len() as int] == '_',
        qualified(p, n)[p.len() as int + 1] == '_',
        forall|i: int| 0 <= i < n.len() ==> #[trigger] n[i] == qualified(p, n)[p.len() + 2 + i],
{
    reveal_strlit("__");
}

proof fn lemma_qualified_shift(p1: Seq<char>, n1: Seq<char>, p2: Seq<char>, n2: Seq<char>)
    requires
        p1.len() > p2.len(),
        !has_infix(n2, "__"@),
        qualified(p1, n1) == qualified(p2, n2),
    ensures
        shifted(p1, n1, p2, n2),
{
    lemma_qualified_chars(p1, n1);
    lemma_qualified_chars(p2, n2);
    let q = qualified(p1, n1);
    let d = p1.len() - p2.len();
    if d >= 2 {
        let at = d - 2;
        assert(n2[at] == q[p1.len() as int]);
        assert(n2[at + 1] == q[p1.len() as int + 1]);
        reveal_strlit("__");
        assert(n2.subrange(at, at + 2) =~= "__"@);
        assert(occurs_at(n2, "__"@, at));
    } else {
        assert(p1 =~= p2 + seq!['_']) by {
            assert forall|i: int| 0 <= i < p2.len() implies p1[i] == p2[i] by {
                assert(q[i] == p1[i]);
                assert(qualified(p2, n2)[i] == p2[i]);
            }
            assert(q[p2.len() as int] == p1[p2.len() as int]);
        }
        assert(n2 =~= seq!['_'] + n1) by {
            assert(n2[0] == q[p2.len() as int + 2]);
            assert forall|i: int| 0 <= i < n1.len() implies n2[i + 1] == n1[i] by {}
        }
    }
}

/// Writing a shape as a word and reading it back gives the shape: different shapes
/// have different words.
pub proof fn law_shape_words_are_distinct(a: Shape, b: Shape)
    requires
        a.word() == b.word(),
    ensures
        a == b,
{
    reveal_strlit("scalar");
    reveal_strlit("table");
    reveal_strlit("aggregate");
    reveal_strlit("collation");
    reveal_strlit("pragma");
    reveal_strlit("macro");
    let w = a.word();
    assert("scalar"@.len() == 6 && "scalar"@[0] == 's');
    assert("table"@.len() == 5 && "table"@[0] == 't');
    assert("aggregate"@.len() == 9 && "aggregate"@[0] == 'a');
    assert("collation"@.len() == 9 && "collation"@[0] == 'c');
    assert("pragma"@.len() == 6 && "pragma"@[0] == 'p');
    assert("macro"@.len() == 5 && "macro"@[0] == 'm');
    assert(w.len() == b.word().len() && w[0] == b.word()[0]);
}

/// Registrations of one expansion alone never collide, however often it registers.
pub proof fn law_one_expansion_never_collides(
    prior: Seq<(Seq<char>, Seq<char>)>,
    extension: Seq<char>,
    expansion: Seq<char>,
)
    requires
        forall|i: int| 0 <= i < prior.len() ==> (#[trigger] prior[i]).1 == expansion,
    ensures
        !collides(prior, expansion),
        forall|i: int|
            0 <= i < noted(prior, extension, expansion).len() ==> (#[trigger] noted(
                prior,
                extension,
                expansion,
            )[i]).1 == expansion,
{
    let now = noted(prior, extension, expansion);
    lemma_without(prior, (extension, expansion));
    assert forall|i: int| 0 <= i < now.len() implies (#[trigger] now[i]).1 == expansion by {
        if i < now.len() - 1 {
            let kept = without(prior, (extension, expansion));
            assert(kept.contains(kept[i]));
        }
    }
}

/// The last of the registrations is the one that was just recorded, whether it is new or
/// comes again.
pub proof fn law_last_recorded_owns_the_name(
    prior: Seq<(Seq<char>, Seq<char>)>,
    extension: Seq<char>,
    expansion: Seq<char>,
)
    ensures
        noted(prior, extension, expansion).last() == (extension, expansion),
        owner_text(
            noted(prior, extension, expansion).map_values(|p: (Seq<char>, Seq<char>)| p.0),
        ) == extension,
{
}

/// Recording keeps the other registrations in their order, puts the new one behind them,
/// and lists no pair twice.
pub proof fn law_recording_repeats_nothing(
    prior: Seq<(Seq<char>, Seq<char>)>,
    extension: Seq<char>,
    expansion: Seq<char>,
)
    requires
        prior.no_duplicates(),
    ensures
        noted(prior, extension, expansion).no_duplicates(),
        noted(prior, extension, expansion) == without(prior, (extension, expansion)).push(
            (extension, expansion),
        ),
        forall|p: (Seq<char>, Seq<char>)|
            noted(prior, extension, expansion).contains(p) <==> prior.contains(p) || p == (
                extension,
                expansion,
            ),
        !prior.contains((extension, expansion)) ==> noted(prior, extension, expansion)
            == prior.push((extension, expansion)),
{
    let pair = (extension, expansion);
    let kept = without(prior, pair);
    let now = noted(prior, extension, expansion);
    lemma_without(prior, pair);
    assert(!kept.contains(pair));
    assert forall|p: (Seq<char>, Seq<char>)| now.contains(p) <==> prior.contains(p) || p == pair by {
        if kept.contains(p) {
            assert(now[kept.index_of(p)] == p);
        }
        if p == pair {
            assert(now[kept.len() as int] == p);
        }
        if now.contains(p) && p != pair {
            let k = now.index_of(p);
            assert(kept[k] == p);
        }
    }
}

/// What is left of a list without an element: the others, none of them twice that was
/// there once, and the whole list where the element was not in it.
proof fn lemma_without<A>(list: Seq<A>, e: A)
    ensures
        forall|x: A| #[trigger] without(list, e).contains(x) <==> list.contains(x) && x != e,
        list.no_duplicates() ==> without(list, e).no_duplicates(),
        !list.contains(e) ==> without(list, e) == list,
    decreases list.len(),
{
    if list.len() > 0 {
        let rest = list.drop_last();
        let kept = without(rest, e);
        let now = without(list, e);
        lemma_without(rest, e);
        assert forall|x: A| now.contains(x) <==> list.contains(x) && x != e by {
            if kept.contains(x) {
                assert(now[kept.index_of(x)] == x);
                assert(list[rest.index_of(x)] == x);
            }
            if x == list.last() && x != e {
                assert(now[kept.len() as int] == x);
            }
            if list.contains(x) && x != list.last() {
                let k = list.index_of(x);
                assert(rest[k] == x);
            }
            if now.contains(x) && list.last() != e && x != list.last() {
                let k = now.index_of(x);
                assert(kept[k] == x);
            }
        }
        if list.no_duplicates() {
            assert(rest.no_duplicates());
            if list.last() != e {
                assert(!rest.contains(list.last())) by {
                    if rest.contains(list.last()) {
                        let k = rest.index_of(list.last());
                        assert(list[k] == list[list.len() - 1]);
                    }
                }
                assert(!kept.contains(list.last()));
            }
        }
        if !list.contains(e) {
            assert(!rest.contains(e)) by {
                if rest.contains(e) {
                    assert(list[rest.index_of(e)] == e);
                }
            }
            assert(list[list.len() - 1] != e);
            assert(now =~= list);
        }
    }
}

/// The pairs that the script enters are strictly ascending, and are exactly the
/// pairs of the rows.
pub proof fn law_distinct_pairs(rows: Seq<PrefixRow>)
    ensures
        ascending(distinct_pairs(rows)),
        forall|p: (Seq<char>, Seq<char>)|
            distinct_pairs(rows).contains(p) <==> exists|i: int|
                0 <= i < rows.len() && row_pair(#[trigger] rows[i]) == p,
    decreases rows.len(),
{
    if rows.len() > 0 {
        let before = rows.drop_last();
        law_distinct_pairs(before);
        let list = distinct_pairs(before);
        let q = row_pair(rows.last());
        lemma_with_pair(list, q);
        assert forall|p: (Seq<char>, Seq<char>)|
            distinct_pairs(rows).contains(p) <==> exists|i: int|
                0 <= i < rows.len() && row_pair(#[trigger] rows[i]) == p by {
            if list.contains(p) {
                let i = choose|i: int| 0 <= i < before.len() && row_pair(#[trigger] before[i]) == p;
                assert(row_pair(rows[i]) == p);
            }
            if p == q {
                assert(row_pair(rows[rows.len() - 1]) == p);
            }
            if exists|i: int| 0 <= i < rows.len() && row_pair(#[trigger] rows[i]) == p {
                let i = choose|i: int| 0 <= i < rows.len() && row_pair(#[trigger] rows[i]) == p;
                if i < before.len() {
                    assert(row_pair(before[i]) == p);
                }
            }
        }
    }
}

/// Strictly ascending.
pub open spec fn ascending(list: Seq<(Seq<char>, Seq<char>)>) -> bool {
    forall|i: int, j: int|
        0 <= i < j < list.len() ==> pair_less(#[trigger] list[i], #[trigger] list[j])
}

proof fn lemma_pair_order(
    a: (Seq<char>, Seq<char>),
    b: (Seq<char>, Seq<char>),
    c: (Seq<char>, Seq<char>),
)
    ensures
        !pair_less(a, a),
        pair_less(a, b) && pair_less(b, c) ==> pair_less(a, c),
        pair_less(a, b) || pair_less(b, a) || a == b,
{
    lemma_text_order(a.0, b.0, c.0);
    lemma_text_order(a.1, b.1, c.1);
}

proof fn lemma_with_pair(list: Seq<(Seq<char>, Seq<char>)>, p: (Seq<char>, Seq<char>))
    requires
        ascending(list),
    ensures
        ascending(with_pair(list, p)),
        forall|x: (Seq<char>, Seq<char>)|
            #[trigger] with_pair(list, p).contains(x) <==> list.contains(x) || x == p,
    decreases list.len(),
{
    let out = with_pair(list, p);
    if list.len() == 0 {
        assert(out[0] == p);
    } else if list[0] == p {
        assert(list.contains(p));
    } else if pair_less(p, list[0]) {
        assert forall|i: int, j: int| 0 <= i < j < out.len() implies pair_less(
            #[trigger] out[i],
            #[trigger] out[j],
        ) by {
            if i == 0 && j > 1 {
                lemma_pair_order(p, list[0], list[j - 1]);
            }
        }
        assert forall|x: (Seq<char>, Seq<char>)| #[trigger] out.contains(x) <==> list.contains(x) || x
            == p by {
            if list.contains(x) {
                let k = list.index_of(x);
                assert(out[k + 1] == x);
            }
            if x == p {
                assert(out[0] == x);
            }
            if out.contains(x) && x != p {
                let k = out.index_of(x);
                assert(list[k - 1] == x);
            }
        }
    } else {
        let rest = list.drop_first();
        assert forall|i: int, j: int| 0 <= i < j < rest.len() implies pair_less(
            #[trigger] rest[i],
            #[trigger] rest[j],
        ) by {
            assert(rest[i] == list[i + 1] && rest[j] == list[j + 1]);
        }
        lemma_with_pair(rest, p);
        let tail = with_pair(rest, p);
        assert forall|x: (Seq<char>, Seq<char>)| #[trigger] out.contains(x) <==> list.contains(x) || x
            == p by {
            if list.contains(x) {
                let k = list.index_of(x);
                if k == 0 {
                    assert(out[0] == x);
                } else {
                    assert(rest[k - 1] == x);
                    assert(tail.contains(x));
                    let m = tail.index_of(x);
                    assert(out[m + 1] == x);
                }
            }
            if x == p {
                assert(tail.contains(x));
                let m = tail.index_of(x);
                assert(out[m + 1] == x);
            }
            if out.contains(x) {
                let m = out.index_of(x);
                if m == 0 {
                    assert(list[0] == x);
                } else {
                    assert(tail[m - 1] == x);
                    assert(tail.contains(x));
                    if x != p {
                        let k = rest.index_of(x);
                        assert(list[k + 1] == x);
                    }
                }
            }
        }
        assert forall|i: int, j: int| 0 <= i < j < out.len() implies pair_less(
            #[trigger] out[i],
            #[trigger] out[j],
        ) by {
            if i == 0 {
                let x = tail[j - 1];
                assert(tail.contains(x));
                lemma_pair_order(list[0], p, p);
                if x != p {
                    let k = rest.index_of(x);
                    assert(list[k + 1] == x);
                }
            } else {
                assert(out[i] == tail[i - 1] && out[j] == tail[j - 1]);
            }
        }
    }
}

/// Retaining a registration makes its expansion the default owner and leaves the
/// other expansions in their order, each listed once.
pub proof fn law_last_retained_is_default_owner(list: Seq<Seq<char>>, e: Seq<char>)
    requires
        list.no_duplicates(),
    ensures
        moved_to_end(list, e).len() > 0,
        moved_to_end(list, e).last() == e,
        moved_to_end(list, e).no_duplicates(),
        forall|x: Seq<char>|
            #[trigger] moved_to_end(list, e).contains(x) <==> list.contains(x) || x == e,
{
    lemma_without(list, e);
    let w = without(list, e);
    let m = moved_to_end(list, e);
    assert forall|x: Seq<char>| #[trigger] m.contains(x) <==> list.contains(x) || x == e by {
        if x == e {
            assert(m[w.len() as int] == e);
        } else if list.contains(x) {
            assert(w.contains(x));
            let k = w.index_of(x);
            assert(m[k] == x);
        }
        if m.contains(x) && x != e {
            let k = m.index_of(x);
            assert(w[k] == x);
            assert(w.contains(x));
        }
    }
    assert forall|i: int, j: int| 0 <= i < m.len() && 0 <= j < m.len() && i != j implies m[i]
        != m[j] by {
        if i == w.len() {
            assert(w[j] == m[j]);
            assert(w.contains(m[j]));
        } else if j == w.len() {
            assert(w[i] == m[i]);
            assert(w.contains(m[i]));
        } else {
            assert(w[i] == m[i] && w[j] == m[j]);
        }
    }
}

/// A qualified name is the prefix, two underscores and the name.
pub proof fn law_qualified_name(prefix: Seq<char>, name: Seq<char>)
    ensures
        qualified(prefix, name) == prefix + seq!['_', '_'] + name,
        can_qualify(prefix, name) <==> prefix.len() > 0 && !is_digit(prefix[0]) && (forall|i: int|
            0 <= i < prefix.len() ==> is_word(#[trigger] prefix[i])) && !has_infix(name, seq!['_', '_']),
{
    reveal_strlit("__");
    assert("__"@ =~= seq!['_', '_']);
    if prefix.len() > 0 {
        assert(is_word(prefix[0]) ==> is_alpha(prefix[0]) || is_digit(prefix[0]) || prefix[0] == '_');
    }
}

/// An identifier is made character by character: what can stand in one stays, anything
/// else becomes an underscore, and an underscore goes in front of a digit.
pub proof fn law_made_identifier_is_by_character(raw: Seq<char>, i: int)
    requires
        0 <= i < raw.len(),
    ensures
        ({
            let shift: int = if is_digit(raw[0]) { 1 } else { 0 };
            &&& ident_of(raw).len() == raw.len() + shift
            &&& shift == 1 ==> ident_of(raw)[0] == '_'
            &&& ident_of(raw)[i + shift] == (if is_alpha(raw[i]) || is_digit(raw[i]) {
                raw[i]
            } else {
                '_'
            })
        }),
        ident_of(Seq::empty()) == seq!['_'],
{
}

/// A declared extension has its declared identity, and its declared prefix where that is an
/// identifier; an undeclared one is known by its own name under "ducklink-internal://".
pub proof fn law_prefix_resolution(
    declarations: Map<Seq<char>, (Seq<char>, Seq<char>)>,
    extension: Seq<char>,
    prefix: Seq<char>,
    expansion: Seq<char>,
)
    ensures
        !declarations.contains_key(extension) ==> resolved(declarations, extension) == (
            ident_of(extension),
            "ducklink-internal://"@ + extension,
            true,
        ),
        is_ident(prefix) ==> resolved(
            declarations.insert(extension, (prefix, expansion)),
            extension,
        ) == (prefix, expansion, false),
        !is_ident(prefix) ==> resolved(
            declarations.insert(extension, (prefix, expansion)),
            extension,
        ) == (ident_of(extension), expansion, false),
{
}

/// An index entry declares a prefix where it has the texts "name", "prefix" and
/// "expansion". A later entry takes the place of an earlier one of the same name, and every
/// other entry changes nothing.
pub proof fn law_index_entry_declares(
    entries: Seq<Json>,
    entry: Map<Seq<char>, Json>,
    name: Seq<char>,
    prefix: Seq<char>,
    expansion: Seq<char>,
)
    ensures
        entry.contains_pair("name"@, Json::Text(name)) && entry.contains_pair(
            "prefix"@,
            Json::Text(prefix),
        ) && entry.contains_pair("expansion"@, Json::Text(expansion)) ==> declarations(
            entries.push(Json::Object(entry)),
        ) == declarations(entries).insert(name, (prefix, expansion)),
        !(entry.contains_key("name"@) && entry["name"@] is Text) || !(entry.contains_key("prefix"@)
            && entry["prefix"@] is Text) || !(entry.contains_key("expansion"@)
            && entry["expansion"@] is Text) ==> declarations(entries.push(Json::Object(entry)))
            == declarations(entries),
        index_declarations(
            Json::Object(Map::empty().insert("extensions"@, Json::Array(entries))),
        ) == declarations(entries),
        declarations(Seq::empty()) == Map::<Seq<char>, (Seq<char>, Seq<char>)>::empty(),
{
    let list = entries.push(Json::Object(entry));
    assert(list.drop_last() =~= entries);
    assert(list.last() == Json::Object(entry));
}

/// The words for the kinds of registrations.
pub proof fn law_shape_words(shape: Shape)
    ensures
        shape.word() == (match shape {
            Shape::Scalar => "scalar"@,
            Shape::Table => "table"@,
            Shape::Aggregate => "aggregate"@,
            Shape::Collation => "collation"@,
            Shape::Pragma => "pragma"@,
            Shape::Macro => "macro"@,
        }),
{
}

/// A registration collides where another identity has registered the same before.
pub proof fn law_collision_needs_another_identity(
    prior: Seq<(Seq<char>, Seq<char>)>,
    extension: Seq<char>,
    theirs: Seq<char>,
    ours: Seq<char>,
)
    ensures
        collides(prior.push((extension, theirs)), ours) <==> collides(prior, ours) || theirs != ours,
        !collides(Seq::empty(), ours),
{
    let list = prior.push((extension, theirs));
    if collides(prior, ours) {
        let i = choose|i: int| 0 <= i < prior.len() && (#[trigger] prior[i]).1 != ours;
        assert(list[i].1 != ours);
    }
    if theirs != ours {
        assert(list[prior.len() as int].1 != ours);
    }
    if collides(list, ours) {
        let i = choose|i: int| 0 <= i < list.len() && (#[trigger] list[i]).1 != ours;
        if i < prior.len() {
            assert(prior[i].1 != ours);
        }
    }
}

/// Taking an element out leaves all others, in their order.
pub proof fn law_without_keeps_the_rest<A>(a: Seq<A>, b: Seq<A>, e: A, x: A)
    ensures
        without(a + b, e) == without(a, e) + without(b, e),
        without(seq![e], e) == Seq::<A>::empty(),
        x != e ==> without(seq![x], e) == seq![x],
    decreases b.len(),
{
    assert(seq![e].drop_last() =~= Seq::<A>::empty());
    assert(seq![x].drop_last() =~= Seq::<A>::empty());
    assert(without(Seq::<A>::empty(), e) =~= Seq::<A>::empty());
    assert(Seq::<A>::empty().push(x) =~= seq![x]);
    if b.len() == 0 {
        assert(a + b =~= a);
        assert(without(a, e) + without(b, e) =~= without(a, e));
    } else {
        assert((a + b).drop_last() =~= a + b.drop_last());
        law_without_keeps_the_rest(a, b.drop_last(), e, x);
        assert(without(a + b, e) =~= without(a, e) + without(b, e));
    }
}

/// A text in quotes has each of its quotes doubled and is otherwise unchanged.
pub proof fn law_quotes_are_doubled(a: Seq<char>, b: Seq<char>)
    ensures
        sql_escaped(a + seq!['\''] + b) == sql_escaped(a) + seq!['\'', '\''] + sql_escaped(b),
        lacks(a, '\'') ==> sql_escaped(a) == a,
{
    reveal_strlit("''");
    assert("''"@ =~= seq!['\'', '\'']);
    law_replace_is_by_character(a, seq!['\''], '\'', '\'', "''"@);
    law_replace_is_by_character(a + seq!['\''], b, '\'', '\'', "''"@);
}

/// The script creates the tables, then has one statement for each distinct pair of prefix
/// and identity, then one for each function, each with its own values.
pub proof fn law_prefix_script_is_by_row(
    a: Seq<PrefixRow>,
    row: PrefixRow,
    pairs: Seq<(Seq<char>, Seq<char>)>,
    prefix: Seq<char>,
    expansion: Seq<char>,
    now: i64,
)
    ensures
        prefix_table_script(a, now) == PREFIX_SCHEMA_SQL@ + prefix_inserts(distinct_pairs(a), now)
            + function_inserts(a, now),
        prefix_inserts(pairs.push((prefix, expansion)), now) == prefix_inserts(pairs, now)
            + "INSERT OR IGNORE INTO __ducklink_prefix(name, expansion, created_at) VALUES ('"@
            + sql_escaped(prefix) + "', '"@ + sql_escaped(expansion) + "', "@ + decimal_of(now as int)
            + ");"@,
        function_inserts(a.push(row), now) == function_inserts(a, now)
            + "INSERT OR IGNORE INTO __ducklink_prefix_function(expansion, function_name, extension_name, shape, n_args, registered_at) VALUES ('"@
            + sql_escaped(row.expansion@) + "', '"@ + sql_escaped(row.function_name@) + "', '"@
            + sql_escaped(row.extension@) + "', '"@ + sql_escaped(row.shape@) + "', "@ + decimal_of(
            row.n_args as int,
        ) + ", "@ + decimal_of(now as int) + ");"@,
        prefix_inserts(Seq::empty(), now).len() == 0,
        function_inserts(Seq::empty(), now).len() == 0,
{
    let more = pairs.push((prefix, expansion));
    assert(more.drop_last() =~= pairs);
    assert(prefix_inserts(more, now) =~= prefix_inserts(pairs, now)
        + "INSERT OR IGNORE INTO __ducklink_prefix(name, expansion, created_at) VALUES ('"@
        + sql_escaped(prefix) + "', '"@ + sql_escaped(expansion) + "', "@ + decimal_of(now as int)
        + ");"@);
    let rows = a.push(row);
    assert(rows.drop_last() =~= a);
    assert(function_inserts(rows, now) =~= function_inserts(a, now)
        + "INSERT OR IGNORE INTO __ducklink_prefix_function(expansion, function_name, extension_name, shape, n_args, registered_at) VALUES ('"@
        + sql_escaped(row.expansion@) + "', '"@ + sql_escaped(row.function_name@) + "', '"@
        + sql_escaped(row.extension@) + "', '"@ + sql_escaped(row.shape@) + "', "@ + decimal_of(
        row.n_args as int,
    ) + ", "@ + decimal_of(now as int) + ");"@);
}

/// A warning of a collision names the registration, everyone who made it, the owner of the
/// bare name, and the qualified forms.
pub proof fn law_collision_warning(
    name: Seq<char>,
    shape: Shape,
    n_args: i32,
    extensions: Seq<Seq<char>>,
    owner: Seq<char>,
    forms: Seq<Seq<char>>,
)
    ensures
        collision_text(name, shape, n_args, extensions.push(owner), forms)
            == "[prefix] WARNING: bare name '"@ + name + "' ("@ + shape.word() + "/"@ + decimal_of(
            n_args as int,
        ) + "-arg) is registered by multiple extensions ["@ + join_of(extensions.push(owner), ", "@)
            + "]; bare '"@ + name + "(...)' now resolves to '"@ + owner
            + "' (last loaded). Use a qualified form to disambiguate: "@ + join_of(forms, ", "@) + "."@,
        owner_text(Seq::empty()) == "?"@,
{
}

/// The form that is offered for an extension is the registration under the extension's
/// prefix: the one at hand under the prefix that it resolved to, another under its name.
pub proof fn law_offered_forms(
    other: Seq<char>,
    extension: Seq<char>,
    prefix: Seq<char>,
    bare_name: Seq<char>,
)
    ensures
        offered_form(extension, extension, prefix, bare_name) == prefix + seq!['_', '_'] + bare_name,
        other != extension ==> offered_form(other, extension, prefix, bare_name) == ident_of(other)
            + seq!['_', '_'] + bare_name,
{
    law_qualified_name(prefix, bare_name);
    law_qualified_name(ident_of(other), bare_name);
}

/// The warning for an undeclared extension gives the prefix and the identity that are made
/// up for it.
pub proof fn law_fallback_warning(extension: Seq<char>)
    ensures
        fallback_warning(extension) == "[prefix] WARNING: extension '"@ + extension
            + "' has no prefix/expansion in registry/index.json; using deprecation fallback prefix='"@
            + extension + "', expansion='"@ + internal_expansion(extension)
            + "'. This becomes a hard error after ducklink v1.1 — add `prefix` and `expansion` to its registry entry."@,
        internal_expansion(extension) == "ducklink-internal://"@ + extension,
{
    reveal_strlit("', expansion='ducklink-internal://");
    reveal_strlit("', expansion='");
    reveal_strlit("ducklink-internal://");
    assert("', expansion='ducklink-internal://"@ =~= "', expansion='"@ + "ducklink-internal://"@);
    assert(fallback_warning(extension) =~= "[prefix] WARNING: extension '"@ + extension
        + "' has no prefix/expansion in registry/index.json; using deprecation fallback prefix='"@
        + extension + "', expansion='"@ + internal_expansion(extension)
        + "'. This becomes a hard error after ducklink v1.1 — add `prefix` and `expansion` to its registry entry."@);
}

/// Pairs are ordered by their first texts, and by their second where the first are equal.
pub proof fn law_pair_order(a: Seq<char>, b: Seq<char>, x: Seq<char>, y: Seq<char>)
    ensures
        pair_less((a, x), (a, y)) == text_less(x, y),
        text_less(a, b) ==> pair_less((a, x), (b, y)) && !pair_less((b, y), (a, x)),
{
    lemma_text_order(a, b, a);
    lemma_text_order(a, a, a);
    lemma_text_order(b, a, b);
}

/// The tables of the script, word for word.
pub proof fn law_prefix_tables()
    ensures
        PREFIX_SCHEMA_SQL@ == "\
CREATE TABLE IF NOT EXISTS __ducklink_prefix (\
  name VARCHAR PRIMARY KEY,\
  expansion VARCHAR NOT NULL,\
  description VARCHAR,\
  created_at BIGINT NOT NULL,\
  last_used_at BIGINT\
);\
CREATE TABLE IF NOT EXISTS __ducklink_prefix_function (\
  expansion VARCHAR NOT NULL,\
  function_name VARCHAR NOT NULL,\
  extension_name VARCHAR,\
  shape VARCHAR NOT NULL,\
  n_args INTEGER NOT NULL,\
  registered_at BIGINT NOT NULL,\
  PRIMARY KEY (expansion, function_name, shape, n_args)\
);\
CREATE TABLE IF NOT EXISTS __ducklink_prefix_pin (\
  function_name VARCHAR NOT NULL,\
  shape VARCHAR NOT NULL,\
  n_args INTEGER NOT NULL,\
  expansion VARCHAR NOT NULL,\
  set_at BIGINT NOT NULL,\
  PRIMARY KEY (function_name, shape, n_args)\
);"@,
{
}

/// An ascending list has no pair behind one with a later prefix.
pub proof fn law_ascending_goes_upwards(list: Seq<(Seq<char>, Seq<char>)>, i: int, j: int)
    requires
        ascending(list),
        0 <= i < j < list.len(),
    ensures
        text_less(list[i].0, list[j].0) || (list[i].0 == list[j].0 && text_less(list[i].1, list[j].1)),
        list[i] != list[j],
{
    assert(pair_less(list[i], list[j]));
    lemma_text_order(list[i].0, list[i].0, list[i].0);
    lemma_text_order(list[i].1, list[i].1, list[i].1);
}

/// What was recorded for a key is found under it, and nothing where nothing was recorded.
pub proof fn law_records_are_found(
    seen: Map<KeyModel, Seq<(Seq<char>, Seq<char>)>>,
    orders: Map<KeyModel, Seq<Seq<char>>>,
    key: KeyModel,
    list: Seq<(Seq<char>, Seq<char>)>,
    order: Seq<Seq<char>>,
)
    ensures
        prior_of(seen.insert(key, list), key) == list,
        !seen.contains_key(key) ==> prior_of(seen, key).len() == 0,
        order_of(orders.insert(key, order), key) == order,
        !orders.contains_key(key) ==> order_of(orders, key).len() == 0,
{
}

/// The views of keys and pairs show their own parts.
pub proof fn law_prefix_views(
    v: Seq<(String, String)>,
    key: CollisionKey,
    retained: RetainedKey,
    row: PrefixRow,
    i: int,
)
    requires
        0 <= i < v.len(),
    ensures
        pairs_of(v).len() == v.len(),
        pairs_of(v)[i] == (v[i].0@, v[i].1@),
        key@.name == key.name@ && key@.shape == key.shape && key@.n_args == key.n_args,
        retained@.key.name == retained.name@ && retained@.key.shape == retained.shape
            && retained@.key.n_args == retained.n_args && retained@.expansion == retained.expansion@,
        row_pair(row) == (row.prefix@, row.expansion@),
{
}

} // verus!
