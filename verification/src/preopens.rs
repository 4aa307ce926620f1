//! The directories that a component may see.
use crate::paths::{paths_equal, same_path};
use crate::text::{chars_of, same_text, trim, trim_of};
use vstd::prelude::*;

verus! {

/// A directory of the host and the name under which a component sees it.
#[derive(Debug)]
pub struct Preopen {
    pub host: String,
    pub guest: String,
}

impl View for Preopen {
    type V = (Seq<char>, Seq<char>);

    open spec fn view(&self) -> (Seq<char>, Seq<char>) {
        (self.host@, self.guest@)
    }
}

/// The name stands for the working directory.
pub open spec fn is_cwd(guest: Seq<char>) -> bool {
    guest == "."@ || guest == "./"@ || guest.len() == 0
}

/// One of the preopens is the working directory.
pub open spec fn maps_cwd(preopens: Seq<(Seq<char>, Seq<char>)>) -> bool {
    exists|i: int| 0 <= i < preopens.len() && is_cwd((#[trigger] preopens[i]).1)
}

pub fn caller_maps_cwd(preopens: &Vec<Preopen>) -> (r: bool)
    ensures
        r == maps_cwd(crate::model::views(preopens@)),
{
    let mut i: usize = 0;
    while i < preopens.len()
        invariant
            i <= preopens@.len(),
            forall|j: int| 0 <= j < i ==> !is_cwd((#[trigger] crate::model::views(preopens@)[j]).1),
        decreases preopens@.len() - i,
    {
        let g = preopens[i].guest.as_str();
        assert(crate::model::views(preopens@)[i as int] == preopens@[i as int]@);
        if same_text(g, ".") || same_text(g, "./") || g.is_empty() {
            return true;
        }
        i += 1;
    }
    false
}

/// A directory of the host is among the preopens, however its path is written there.
pub open spec fn has_host(preopens: Seq<(Seq<char>, Seq<char>)>, host: Seq<char>) -> bool {
    exists|i: int| 0 <= i < preopens.len() && same_path((#[trigger] preopens[i]).0, host)
}

/// The list with those of `extra` whose host directory is not there yet.
pub open spec fn with_missing(
    list: Seq<(Seq<char>, Seq<char>)>,
    extra: Seq<(Seq<char>, Seq<char>)>,
) -> Seq<(Seq<char>, Seq<char>)>
    decreases extra.len(),
{
    if extra.len() == 0 {
        list
    } else {
        let before = with_missing(list, extra.drop_last());
        if has_host(before, extra.last().0) {
            before
        } else {
            before.push(extra.last())
        }
    }
}

/// All preopens of a session: the working directory unless the caller maps it, then
/// what the caller asks for, then the cache directories that are not there yet.
pub open spec fn merged(
    preopens: Seq<(Seq<char>, Seq<char>)>,
    cwd: Seq<char>,
    caches: Seq<(Seq<char>, Seq<char>)>,
) -> Seq<(Seq<char>, Seq<char>)> {
    with_missing(
        (if maps_cwd(preopens) {
            Seq::empty()
        } else {
            seq![(cwd, "."@)]
        }) + preopens,
        caches,
    )
}

fn host_listed(list: &Vec<Preopen>, host: &str) -> (r: bool)
    ensures
        r == has_host(crate::model::views(list@), host@),
{
    let mut i: usize = 0;
    while i < list.len()
        invariant
            i <= list@.len(),
            forall|j: int|
                0 <= j < i ==> !same_path((#[trigger] crate::model::views(list@)[j]).0, host@),
        decreases list@.len() - i,
    {
        assert(crate::model::views(list@)[i as int] == list@[i as int]@);
        if paths_equal(list[i].host.as_str(), host) {
            return true;
        }
        i += 1;
    }
    false
}

/// Puts the preopens of a session together. The working directory is used only where
/// the caller does not map it.
pub fn resolve_preopens_with_default(
    preopens: Vec<Preopen>,
    cwd: String,
    caches: Vec<Preopen>,
) -> (r: Vec<Preopen>)
    ensures
        crate::model::views(r@) == merged(
            crate::model::views(preopens@),
            cwd@,
            crate::model::views(caches@),
        ),
{
    let ghost asked = crate::model::views(preopens@);
    let ghost extra = crate::model::views(caches@);
    let mut out: Vec<Preopen> = Vec::new();
    if !caller_maps_cwd(&preopens) {
        out.push(Preopen { host: cwd, guest: ".".to_owned() });
    }
    let ghost head = crate::model::views(out@);
    assert(head =~= (if maps_cwd(asked) {
        Seq::empty()
    } else {
        seq![(cwd@, "."@)]
    }));
    let mut preopens = preopens;
    let ghost before = out@;
    out.append(&mut preopens);
    assert(crate::model::views(out@) =~= head + asked);
    assert(extra.take(0) =~= Seq::<(Seq<char>, Seq<char>)>::empty());
    for c in it: caches
        invariant
            it.seq() == caches@,
            extra == crate::model::views(caches@),
            crate::model::views(out@) == with_missing(head + asked, extra.take(it.index())),
    {
        let ghost t = out@;
        assert(extra.take(it.index() + 1).drop_last() =~= extra.take(it.index()));
        assert(extra.take(it.index() + 1).last() == c@);
        if !host_listed(&out, c.host.as_str()) {
            out.push(c);
            assert(crate::model::views(out@) =~= crate::model::views(t).push(c@));
        }
    }
    assert(extra.take(extra.len() as int) =~= extra);
    out
}

/// What a setting that names a directory says.
#[derive(Debug)]
pub enum DirSetting {
    /// Nothing.
    Blank,
    /// A path that is not absolute, and is ignored.
    NotAbsolute(String),
    /// An absolute path. It is granted under its own name.
    Absolute(String),
}

/// Reads a setting that names a directory.
pub fn read_dir_setting(raw: &str) -> (r: DirSetting)
    ensures
        ({
            let t = trim_of(raw@);
            if t.len() == 0 {
                r is Blank
            } else if t[0] == '/' {
                r matches DirSetting::Absolute(p) && p@ == t
            } else {
                r matches DirSetting::NotAbsolute(p) && p@ == t
            }
        }),
{
    let t = trim(raw);
    let cs = chars_of(t);
    if cs.len() == 0 {
        DirSetting::Blank
    } else if cs[0] == '/' {
        DirSetting::Absolute(t.to_owned())
    } else {
        DirSetting::NotAbsolute(t.to_owned())
    }
}

/// Adds a cache directory that has been made ready, once.
pub fn add_cache_root(list: &mut Vec<Preopen>, path: String)
    ensures
        crate::model::views(final(list)@) == (if has_host(crate::model::views(old(list)@), path@) {
            crate::model::views(old(list)@)
        } else {
            crate::model::views(old(list)@).push((path@, path@))
        }),
{
    if !host_listed(list, path.as_str()) {
        let guest = path.clone();
        list.push(Preopen { host: path, guest });
        assert(crate::model::views(list@) =~= crate::model::views(old(list)@).push((path@, path@)));
    }
}

/// Only the SQLite extension is given directories of its own.
pub fn wants_sqlite_preopens(extension_name: &str) -> (r: bool)
    ensures
        r == (extension_name@ == "sqlitewasm"@),
{
    same_text(extension_name, "sqlitewasm")
}

/// The caller's own mapping of the working directory is never shadowed: where the
/// caller maps it, what the caller asked for comes first.
pub proof fn law_explicit_cwd_is_not_shadowed(
    preopens: Seq<(Seq<char>, Seq<char>)>,
    cwd: Seq<char>,
    caches: Seq<(Seq<char>, Seq<char>)>,
)
    requires
        maps_cwd(preopens),
    ensures
        preopens.is_prefix_of(merged(preopens, cwd, caches)),
{
    let head = Seq::<(Seq<char>, Seq<char>)>::empty() + preopens;
    assert(head =~= preopens);
    lemma_missing_extends(preopens, caches);
}

/// No directory of the host is listed twice.
pub open spec fn hosts_differ(list: Seq<(Seq<char>, Seq<char>)>) -> bool {
    forall|i: int, j: int|
        0 <= i < j < list.len() ==> !same_path(#[trigger] list[i].0, #[trigger] list[j].0)
}

/// The cache directories bring no directory in that is there already, however its path is
/// written.
pub proof fn law_cache_directories_come_once(
    list: Seq<(Seq<char>, Seq<char>)>,
    extra: Seq<(Seq<char>, Seq<char>)>,
)
    requires
        hosts_differ(list),
    ensures
        hosts_differ(with_missing(list, extra)),
    decreases extra.len(),
{
    if extra.len() > 0 {
        law_cache_directories_come_once(list, extra.drop_last());
        let before = with_missing(list, extra.drop_last());
        let after = with_missing(list, extra);
        assert forall|i: int, j: int| 0 <= i < j < after.len() implies !same_path(
            #[trigger] after[i].0,
            #[trigger] after[j].0,
        ) by {
            assert(after[i] == before[i]);
        }
    }
}

proof fn lemma_missing_extends(
    list: Seq<(Seq<char>, Seq<char>)>,
    extra: Seq<(Seq<char>, Seq<char>)>,
)
    ensures
        list.is_prefix_of(with_missing(list, extra)),
    decreases extra.len(),
{
    if extra.len() > 0 {
        lemma_missing_extends(list, extra.drop_last());
        let before = with_missing(list, extra.drop_last());
        let after = with_missing(list, extra);
        assert(list =~= before.take(list.len() as int));
        assert(after.take(list.len() as int) =~= before.take(list.len() as int));
    }
}

// ---------------------------------------------------------------------------
// Laws
// ---------------------------------------------------------------------------

/// The working directory is granted as "." in front of the others, unless a preopen names
/// it already: as ".", as "./" or as nothing.
pub proof fn law_working_directory_is_granted(
    preopens: Seq<(Seq<char>, Seq<char>)>,
    cwd: Seq<char>,
    none: Seq<(Seq<char>, Seq<char>)>,
    i: int,
)
    requires
        none.len() == 0,
    ensures
        (forall|k: int|
            0 <= k < preopens.len() ==> (#[trigger] preopens[k]).1 != seq!['.'] && preopens[k].1 != seq![
                '.',
                '/',
            ] && preopens[k].1.len() > 0) ==> merged(preopens, cwd, none) == seq![(cwd, seq!['.'])]
            + preopens,
        0 <= i < preopens.len() && (preopens[i].1 == seq!['.'] || preopens[i].1 == seq!['.', '/']
            || preopens[i].1.len() == 0) ==> merged(preopens, cwd, none) == preopens,
{
    reveal_strlit(".");
    reveal_strlit("./");
    assert("."@ =~= seq!['.']);
    assert("./"@ =~= seq!['.', '/']);
    if 0 <= i < preopens.len() && is_cwd(preopens[i].1) {
        assert(maps_cwd(preopens));
        assert(Seq::<(Seq<char>, Seq<char>)>::empty() + preopens =~= preopens);
    }
}

/// A cache directory is added behind the others, with its own name for the guest, unless
/// one of them has the same place on the host.
pub proof fn law_cache_directory_is_added(
    preopens: Seq<(Seq<char>, Seq<char>)>,
    cwd: Seq<char>,
    caches: Seq<(Seq<char>, Seq<char>)>,
    cache: (Seq<char>, Seq<char>),
)
    ensures
        ({
            let before = merged(preopens, cwd, caches);
            let after = merged(preopens, cwd, caches.push(cache));
            if exists|i: int| 0 <= i < before.len() && same_path((#[trigger] before[i]).0, cache.0) {
                after == before
            } else {
                after == before.push(cache)
            }
        }),
{
    assert(caches.push(cache).drop_last() =~= caches);
}

/// The view of a preopen is its place on the host and the guest's name for it.
pub proof fn law_preopen_view(p: Preopen)
    ensures
        p@.0 == p.host@,
        p@.1 == p.guest@,
{
}

} // verus!
