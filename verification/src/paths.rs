//! Where the host finds its files. Paths are texts with `/` between components.
use crate::model::{view_opt, views};
use crate::text::{
    chars_of, law_split_joins_again, lemma_split_concat, same_text, split_of, split_on,
};
use crate::spelling::{lacks, lemma_index_is};
use vstd::prelude::*;

verus! {

/// The position of the last `/`; -1 when there is none.
pub open spec fn last_slash(path: Seq<char>) -> int
    decreases path.len(),
{
    if path.len() == 0 {
        -1
    } else if path.last() == '/' {
        path.len() - 1
    } else {
        last_slash(path.drop_last())
    }
}

/// How many characters at the start of a path are no component below it: the `/` of
/// an absolute path, or the `.` of one that starts at the current directory.
pub open spec fn lead_of(path: Seq<char>) -> int {
    if path.len() > 0 && path[0] == '/' {
        1
    } else if path.len() > 0 && path[0] == '.' && (path.len() == 1 || path[1] == '/') {
        1
    } else {
        0
    }
}

/// The end of a path without its last component and the `/` before it.
pub open spec fn cut_of(path: Seq<char>, lead: int) -> int {
    if last_slash(path) >= lead {
        last_slash(path)
    } else {
        lead
    }
}

/// The text of the last component.
pub open spec fn last_part(path: Seq<char>, lead: int) -> Seq<char> {
    if last_slash(path) >= lead {
        path.skip(last_slash(path) + 1)
    } else {
        path.skip(lead)
    }
}

/// The path without the empty and `.` components at its end.
pub open spec fn without_tail(path: Seq<char>, lead: int) -> Seq<char>
    decreases path.len(),
{
    if !(0 <= lead < path.len()) {
        path
    } else if last_part(path, lead).len() == 0 || last_part(path, lead) == seq!['.'] {
        if cut_of(path, lead) < path.len() {
            without_tail(path.take(cut_of(path, lead)), lead)
        } else {
            path
        }
    } else {
        path
    }
}

/// The directory that holds a file or directory: the path without its last
/// component. A bare name lies in the empty path, and a name directly below the root
/// in `/`. The empty path and the root lie nowhere.
pub open spec fn parent_dir(path: Seq<char>) -> Option<Seq<char>> {
    let lead = lead_of(path);
    let body = without_tail(path, lead);
    if body.len() > lead {
        Some(without_tail(body.take(cut_of(body, lead)), lead))
    } else if lead == 1 && path[0] == '.' {
        Some(Seq::empty())
    } else {
        None
    }
}

/// The last component of a path, where it is a name.
pub open spec fn file_name(path: Seq<char>) -> Option<Seq<char>> {
    let lead = lead_of(path);
    let body = without_tail(path, lead);
    if body.len() > lead && last_part(body, lead) != seq!['.', '.'] {
        Some(last_part(body, lead))
    } else {
        None
    }
}

proof fn lemma_last_slash(path: Seq<char>)
    ensures
        -1 <= last_slash(path) < path.len(),
        last_slash(path) >= 0 ==> path[last_slash(path)] == '/',
    decreases path.len(),
{
    if path.len() > 0 && path.last() != '/' {
        lemma_last_slash(path.drop_last());
    }
}

fn read_lead(cs: &Vec<char>) -> (r: usize)
    ensures
        r == lead_of(cs@),
        r <= cs@.len(),
{
    if cs.len() > 0 && cs[0] == '/' {
        1
    } else if cs.len() > 0 && cs[0] == '.' && (cs.len() == 1 || cs[1] == '/') {
        1
    } else {
        0
    }
}

/// Where the last component of the first `end` characters begins.
fn part_start(cs: &Vec<char>, lead: usize, end: usize) -> (r: usize)
    requires
        lead < end <= cs@.len(),
    ensures
        lead <= r <= end,
        cs@.subrange(r as int, end as int) == last_part(cs@.take(end as int), lead as int),
        cut_of(cs@.take(end as int), lead as int) == (if r > lead {
            r - 1
        } else {
            lead as int
        }),
{
    let ghost path = cs@.take(end as int);
    let mut i: usize = end;
    assert(path.take(end as int) =~= path);
    while i > lead && cs[i - 1] != '/'
        invariant
            lead <= i <= end <= cs@.len(),
            path == cs@.take(end as int),
            last_slash(path) == last_slash(path.take(i as int)),
        decreases i,
    {
        assert(path.take(i as int).drop_last() =~= path.take(i - 1));
        i -= 1;
    }
    proof {
        lemma_last_slash(path.take(i as int));
        if i > lead {
            assert(path.take(i as int).last() == '/');
        }
    }
    assert(cs@.subrange(i as int, end as int) =~= path.skip(i as int));
    i
}

/// The end of the first `end` characters without the empty and `.` components.
fn tail_end(cs: &Vec<char>, lead: usize, end: usize) -> (r: usize)
    requires
        lead <= end <= cs@.len(),
    ensures
        lead <= r <= end,
        cs@.take(r as int) == without_tail(cs@.take(end as int), lead as int),
{
    let mut e: usize = end;
    while e > lead
        invariant
            lead <= e <= end <= cs@.len(),
            without_tail(cs@.take(end as int), lead as int) == without_tail(
                cs@.take(e as int),
                lead as int,
            ),
        decreases e,
    {
        let start: usize = part_start(cs, lead, e);
        let ghost part = cs@.subrange(start as int, e as int);
        if start == e {
            assert(part.len() == 0);
        } else if e - start == 1 && cs[start] == '.' {
            assert(part =~= seq!['.']);
        } else {
            assert(part != seq!['.']) by {
                if part == seq!['.'] {
                    assert(part[0] == '.');
                }
            }
            return e;
        }
        let cut: usize = if start > lead {
            start - 1
        } else {
            lead
        };
        assert(cs@.take(e as int).take(cut as int) =~= cs@.take(cut as int));
        e = cut;
    }
    e
}

pub fn parent_of(path: &str) -> (r: Option<String>)
    ensures
        view_opt(r) == parent_dir(path@),
{
    let cs = chars_of(path);
    let n: usize = cs.len();
    let lead: usize = read_lead(&cs);
    let body: usize = tail_end(&cs, lead, n);
    assert(cs@.take(n as int) =~= path@);
    if body > lead {
        let start: usize = part_start(&cs, lead, body);
        let cut: usize = if start > lead {
            start - 1
        } else {
            lead
        };
        let end: usize = tail_end(&cs, lead, cut);
        assert(cs@.take(body as int).take(cut as int) =~= cs@.take(cut as int));
        let head = path.substring_char(0, end);
        assert(head@ =~= cs@.take(end as int));
        Some(head.to_owned())
    } else if lead == 1 && cs[0] == '.' {
        let empty = String::new();
        assert(empty@ =~= Seq::<char>::empty());
        Some(empty)
    } else {
        None
    }
}

pub fn file_name_of(path: &str) -> (r: Option<String>)
    ensures
        view_opt(r) == file_name(path@),
{
    let cs = chars_of(path);
    let n: usize = cs.len();
    let lead: usize = read_lead(&cs);
    let body: usize = tail_end(&cs, lead, n);
    assert(cs@.take(n as int) =~= path@);
    if body <= lead {
        return None;
    }
    let start: usize = part_start(&cs, lead, body);
    let ghost part = cs@.subrange(start as int, body as int);
    if body - start == 2 && cs[start] == '.' && cs[start + 1] == '.' {
        assert(part =~= seq!['.', '.']);
        return None;
    }
    assert(part != seq!['.', '.']) by {
        let dots = seq!['.', '.'];
        assert(dots.len() == 2 && dots[0] == '.' && dots[1] == '.');
        assert(part.len() == body - start);
        if part.len() == 2 {
            assert(part[0] == cs@[start as int] && part[1] == cs@[start + 1]);
        }
    }
    let name = path.substring_char(start, body);
    assert(name@ =~= part);
    Some(name.to_owned())
}

/// The pieces of a path that are components: empty ones are not, and neither is a `.`
/// behind the first piece.
pub open spec fn kept_pieces(pieces: Seq<Seq<char>>) -> Seq<Seq<char>>
    decreases pieces.len(),
{
    if pieces.len() == 0 {
        Seq::empty()
    } else {
        let before = kept_pieces(pieces.drop_last());
        let piece = pieces.last();
        if piece.len() == 0 || (piece == "."@ && pieces.len() > 1) {
            before
        } else {
            before.push(piece)
        }
    }
}

/// Whether a path is absolute, and its components.
pub open spec fn components_of(path: Seq<char>) -> (bool, Seq<Seq<char>>) {
    (path.len() > 0 && path[0] == '/', kept_pieces(split_of(path, '/')))
}

/// The two paths are equal: repeated and trailing slashes, and a `.` that is not the
/// first component, make no difference.
pub open spec fn same_path(a: Seq<char>, b: Seq<char>) -> bool {
    components_of(a) == components_of(b)
}

fn split_components(path: &str) -> (r: (bool, Vec<String>))
    ensures
        (r.0, views(r.1@)) == components_of(path@),
{
    let cs = chars_of(path);
    let absolute: bool = cs.len() > 0 && cs[0] == '/';
    let pieces = split_on(path, '/');
    let ghost all = views(pieces@);
    let mut out: Vec<String> = Vec::new();
    let mut i: usize = 0;
    assert(views(out@) =~= kept_pieces(all.take(0)));
    while i < pieces.len()
        invariant
            i <= pieces@.len(),
            all == views(pieces@),
            views(out@) == kept_pieces(all.take(i as int)),
        decreases pieces@.len() - i,
    {
        let piece = pieces[i].as_str();
        let ghost before = out@;
        assert(all.take(i + 1).drop_last() =~= all.take(i as int));
        assert(all.take(i + 1).last() == piece@);
        if !(piece.is_empty() || (same_text(piece, ".") && i > 0)) {
            out.push(pieces[i].clone());
            assert(views(out@) =~= views(before).push(piece@));
        }
        i += 1;
    }
    assert(all.take(all.len() as int) =~= all);
    (absolute, out)
}

pub fn paths_equal(a: &str, b: &str) -> (r: bool)
    ensures
        r == same_path(a@, b@),
{
    let (a_absolute, a_parts) = split_components(a);
    let (b_absolute, b_parts) = split_components(b);
    let ghost xs = views(a_parts@);
    let ghost ys = views(b_parts@);
    if a_absolute != b_absolute || a_parts.len() != b_parts.len() {
        assert(xs.len() == a_parts@.len() && ys.len() == b_parts@.len());
        return false;
    }
    let mut i: usize = 0;
    while i < a_parts.len()
        invariant
            i <= a_parts@.len() == b_parts@.len(),
            xs == views(a_parts@),
            ys == views(b_parts@),
            xs == components_of(a@).1,
            ys == components_of(b@).1,
            forall|j: int| 0 <= j < i ==> xs[j] == ys[j],
        decreases a_parts@.len() - i,
    {
        assert(xs[i as int] == a_parts@[i as int]@ && ys[i as int] == b_parts@[i as int]@);
        if !same_text(a_parts[i].as_str(), b_parts[i].as_str()) {
            return false;
        }
        i += 1;
    }
    assert(xs =~= ys);
    true
}

/// `rel` below `root`. An absolute path stands for itself.
pub open spec fn joined(root: Seq<char>, rel: Seq<char>) -> Seq<char> {
    if rel.len() > 0 && rel[0] == '/' {
        rel
    } else if root.len() == 0 || root.last() == '/' {
        root + rel
    } else {
        root + "/"@ + rel
    }
}

pub fn join_path(root: &str, rel: &str) -> (r: String)
    ensures
        r@ == joined(root@, rel@),
{
    let cr = chars_of(root);
    let cl = chars_of(rel);
    if cl.len() > 0 && cl[0] == '/' {
        return rel.to_owned();
    }
    let mut out = root.to_owned();
    if !(cr.len() == 0 || cr[cr.len() - 1] == '/') {
        out.append("/");
    }
    out.append(rel);
    out
}

/// The root of the workspace, two levels above the directory of the host's manifest.
/// The directory has to lie that deep.
pub fn workspace_root(manifest_dir: &str) -> (r: String)
    requires
        parent_dir(manifest_dir@) is Some,
        parent_dir(parent_dir(manifest_dir@)->0) is Some,
    ensures
        Some(r@) == parent_dir(parent_dir(manifest_dir@)->0),
{
    match parent_of(manifest_dir) {
        Some(crates) => match parent_of(crates.as_str()) {
            Some(root) => root,
            None => String::new(),
        },
        None => String::new(),
    }
}

/// The two places where a built component may lie.
pub open spec fn candidate_path(root: Seq<char>, profile: Seq<char>, filename: Seq<char>) -> Seq<char> {
    joined(joined(joined(root, "target/wasm32-wasip2"@), profile), filename)
}

fn build_candidate(root: &str, profile: &str, filename: &str) -> (r: String)
    ensures
        r@ == candidate_path(root@, profile@, filename@),
{
    join_path(join_path(join_path(root, "target/wasm32-wasip2").as_str(), profile).as_str(), filename)
}

/// The places to look for a built component, in the order of preference.
pub fn component_candidates(root: &str, filename: &str) -> (r: (String, String))
    ensures
        r.0@ == candidate_path(root@, "release"@, filename@),
        r.1@ == candidate_path(root@, "debug"@, filename@),
{
    (build_candidate(root, "release", filename), build_candidate(root, "debug", filename))
}

/// Which of the two places holds the component.
#[derive(Clone, Copy, Debug, PartialEq, Eq, Structural)]
pub struct Found {
    pub release: bool,
    pub debug: bool,
}

/// The path of a component: the release build where it is there, else the debug
/// build.
pub open spec fn located(root: Seq<char>, filename: Seq<char>, found: Found) -> Result<Seq<char>, Seq<char>> {
    if found.release {
        Ok(candidate_path(root, "release"@, filename))
    } else if found.debug {
        Ok(candidate_path(root, "debug"@, filename))
    } else {
        Err(
            "component artifact "@ + filename + " not found in wasm32-wasip2 target directory"@,
        )
    }
}

pub fn locate_component(root: &str, filename: &str, found: Found) -> (r: Result<String, String>)
    ensures
        crate::model::view_res(r) == located(root@, filename@, found),
{
    let (release, debug) = component_candidates(root, filename);
    if found.release {
        Ok(release)
    } else if found.debug {
        Ok(debug)
    } else {
        let mut m = "component artifact ".to_owned();
        m.append(filename);
        m.append(" not found in wasm32-wasip2 target directory");
        Err(m)
    }
}

/// The components that a session runs.
#[derive(Clone, Debug)]
pub struct ComponentArtifacts {
    pub core_component: String,
    pub cli_component: String,
}

impl ComponentArtifacts {
    pub fn new(core_component: String, cli_component: String) -> (r: ComponentArtifacts)
        ensures
            r.core_component == core_component,
            r.cli_component == cli_component,
    {
        ComponentArtifacts { core_component, cli_component }
    }

    /// The components of the workspace's own build, given where they were found.
    pub fn resolve_default(root: &str, core: Found, cli: Found) -> (r: Result<ComponentArtifacts, String>)
        ensures
            match r {
                Ok(a) => located(root@, "ducklink_core.wasm"@, core) == Ok::<Seq<char>, Seq<char>>(
                    a.core_component@,
                ) && located(root@, "ducklink_cli.wasm"@, cli) == Ok::<Seq<char>, Seq<char>>(
                    a.cli_component@,
                ),
                Err(e) => {
                    ||| located(root@, "ducklink_core.wasm"@, core) == Err::<Seq<char>, Seq<char>>(e@)
                    ||| located(root@, "ducklink_core.wasm"@, core) is Ok && located(
                        root@,
                        "ducklink_cli.wasm"@,
                        cli,
                    ) == Err::<Seq<char>, Seq<char>>(e@)
                },
            },
    {
        let core_component = match locate_component(root, "ducklink_core.wasm", core) {
            Ok(p) => p,
            Err(e) => {
                return Err(e);
            },
        };
        let cli_component = match locate_component(root, "ducklink_cli.wasm", cli) {
            Ok(p) => p,
            Err(e) => {
                return Err(e);
            },
        };
        Ok(ComponentArtifacts { core_component, cli_component })
    }
}

/// Sets the directory of extension components. It is set once: a later call changes
/// nothing.
pub fn set_extension_root(root: &mut Option<String>, path: String)
    ensures
        *final(root) == match *old(root) {
            Some(p) => Some(p),
            None => Some(path),
        },
{
    if root.is_none() {
        *root = Some(path);
    }
}

/// The directory of extension components.
pub open spec fn extensions_dir(root: Option<Seq<char>>, workspace: Seq<char>) -> Seq<char> {
    match root {
        Some(p) => p,
        None => joined(workspace, "artifacts/extensions"@),
    }
}

pub fn extension_dir(root: &Option<String>, workspace: &str) -> (r: String)
    ensures
        r@ == extensions_dir(view_opt(*root), workspace@),
{
    match root {
        Some(p) => p.clone(),
        None => join_path(workspace, "artifacts/extensions"),
    }
}

/// The component file of an extension.
pub fn extension_artifact_path(root: &Option<String>, workspace: &str, name: &str) -> (r: String)
    ensures
        r@ == joined(extensions_dir(view_opt(*root), workspace@), name@ + ".wasm"@),
{
    let mut file = name.to_owned();
    file.append(".wasm");
    join_path(extension_dir(root, workspace).as_str(), file.as_str())
}

/// The directory of dot-command components: beside the extension directory where one
/// is set.
pub fn dotcmd_root(root: &Option<String>, workspace: &str) -> (r: String)
    ensures
        r@ == match view_opt(*root) {
            Some(p) => match parent_dir(p) {
                Some(d) => joined(d, "dotcmds"@),
                None => joined(workspace@, "artifacts/dotcmds"@),
            },
            None => joined(workspace@, "artifacts/dotcmds"@),
        },
{
    match root {
        Some(p) => match parent_of(p.as_str()) {
            Some(d) => join_path(d.as_str(), "dotcmds"),
            None => join_path(workspace, "artifacts/dotcmds"),
        },
        None => join_path(workspace, "artifacts/dotcmds"),
    }
}

// ---------------------------------------------------------------------------
// Laws
// ---------------------------------------------------------------------------

/// The last slash is one, and none stands behind it.
proof fn lemma_slash_is_last(path: Seq<char>)
    ensures
        -1 <= last_slash(path) < path.len(),
        last_slash(path) >= 0 ==> path[last_slash(path)] == '/',
        forall|i: int| last_slash(path) < i < path.len() ==> #[trigger] path[i] != '/',
    decreases path.len(),
{
    if path.len() > 0 && path.last() != '/' {
        lemma_slash_is_last(path.drop_last());
        assert forall|i: int| last_slash(path) < i < path.len() implies #[trigger] path[i] != '/' by {
            if i < path.len() - 1 {
                assert(path.drop_last()[i] == path[i]);
            }
        }
    }
}

/// A file in a directory has its own name, and the directory for its parent.
pub proof fn law_file_in_a_directory(dir: Seq<char>, name: Seq<char>)
    requires
        dir.len() > 0,
        dir.last() != '/',
        dir.last() != '.',
        name.len() > 0,
        lacks(name, '/'),
        name != seq!['.'],
        name != seq!['.', '.'],
    ensures
        joined(dir, name) == dir + seq!['/'] + name,
        file_name(joined(dir, name)) == Some(name),
        parent_dir(joined(dir, name)) == Some(dir),
{
    reveal_strlit("/");
    assert(name[0] != '/');
    let path = joined(dir, name);
    assert(path =~= dir + seq!['/'] + name);
    let n = dir.len() as int;
    assert(path[n] == '/');
    lemma_slash_is_last(path);
    let s = last_slash(path);
    if s > n {
        assert(path[s] == name[s - n - 1]);
    }
    assert(s == n);
    let lead = lead_of(path);
    assert(path[0] == dir[0]);
    if dir.len() > 1 {
        assert(path[1] == dir[1]);
    }
    assert(path.skip(n + 1) =~= name);
    assert(last_part(path, lead) == name);
    assert(without_tail(path, lead) == path);
    assert(path.take(n) =~= dir);
    lemma_slash_is_last(dir);
    let part = last_part(dir, lead);
    if lead < n {
        if last_slash(dir) >= lead {
            assert(part.len() > 0);
            assert(part.last() == dir.last());
        } else {
            assert(part.last() == dir.last());
        }
        assert(part != seq!['.']) by {
            if part == seq!['.'] {
                assert(part.last() == '.');
            }
        }
        assert(without_tail(dir, lead) == dir);
    }
}

/// A path below a root stands behind the root and one slash; an absolute path stands for
/// itself.
pub proof fn law_joined_paths(root: Seq<char>, rel: Seq<char>)
    ensures
        rel.len() > 0 && rel[0] == '/' ==> joined(root, rel) == rel,
        (rel.len() == 0 || rel[0] != '/') && root.len() > 0 && root.last() != '/' ==> joined(root, rel)
            == root + seq!['/'] + rel,
        (rel.len() == 0 || rel[0] != '/') && (root.len() == 0 || root.last() == '/') ==> joined(root, rel)
            == root + rel,
{
    reveal_strlit("/");
    assert("/"@ =~= seq!['/']);
}

/// A component is taken from the release build where it is there, then from the debug
/// build, both below target/wasm32-wasip2; else the refusal names it.
pub proof fn law_component_places(root: Seq<char>, filename: Seq<char>, debug: bool)
    requires
        root.len() > 0,
        root.last() != '/',
        filename.len() > 0,
        filename[0] != '/',
    ensures
        located(root, filename, (Found { release: true, debug })) == Ok::<Seq<char>, Seq<char>>(
            root + "/target/wasm32-wasip2/release/"@ + filename,
        ),
        located(root, filename, (Found { release: false, debug: true })) == Ok::<Seq<char>, Seq<char>>(
            root + "/target/wasm32-wasip2/debug/"@ + filename,
        ),
        located(root, filename, (Found { release: false, debug: false })) == Err::<Seq<char>, Seq<char>>(
            "component artifact "@ + filename + " not found in wasm32-wasip2 target directory"@,
        ),
{
    reveal_strlit("/");
    reveal_strlit("target/wasm32-wasip2");
    reveal_strlit("release");
    reveal_strlit("debug");
    reveal_strlit("/target/wasm32-wasip2/release/");
    reveal_strlit("/target/wasm32-wasip2/debug/");
    let base = joined(root, "target/wasm32-wasip2"@);
    assert(base =~= root + "/"@ + "target/wasm32-wasip2"@);
    assert(base.last() == '2');
    let a = joined(base, "release"@);
    let b = joined(base, "debug"@);
    assert(a.last() == 'e' && b.last() == 'g');
    assert(joined(a, filename) =~= root + "/target/wasm32-wasip2/release/"@ + filename);
    assert(joined(b, filename) =~= root + "/target/wasm32-wasip2/debug/"@ + filename);
}

/// The extensions lie in the directory that was set, or below artifacts/extensions of the
/// workspace.
pub proof fn law_extension_directory(dir: Seq<char>, workspace: Seq<char>)
    requires
        workspace.len() > 0,
        workspace.last() != '/',
    ensures
        extensions_dir(Some(dir), workspace) == dir,
        extensions_dir(None, workspace) == workspace + "/artifacts/extensions"@,
{
    reveal_strlit("/");
    reveal_strlit("artifacts/extensions");
    reveal_strlit("/artifacts/extensions");
    assert(extensions_dir(None, workspace) =~= workspace + "/artifacts/extensions"@);
}

/// Paths are compared piece by piece between their slashes. Empty pieces do not count, nor
/// does a dot that is not the first piece; all other pieces do, in their order, and so does
/// a slash at the front.
pub proof fn law_path_pieces(pieces: Seq<Seq<char>>, piece: Seq<char>, path: Seq<char>)
    ensures
        piece.len() == 0 ==> kept_pieces(pieces.push(piece)) == kept_pieces(pieces),
        piece == seq!['.'] && pieces.len() > 0 ==> kept_pieces(pieces.push(piece)) == kept_pieces(
            pieces,
        ),
        piece.len() > 0 && (piece != seq!['.'] || pieces.len() == 0) ==> kept_pieces(
            pieces.push(piece),
        ) == kept_pieces(pieces).push(piece),
        kept_pieces(Seq::empty()).len() == 0,
        components_of(path).0 <==> path.len() > 0 && path[0] == '/',
        components_of(path).1 == kept_pieces(split_of(path, '/')),
        same_path(path, path),
{
    reveal_strlit(".");
    assert("."@ =~= seq!['.']);
    assert(pieces.push(piece).drop_last() =~= pieces);
}

/// A slash at the end of a path makes no other path of it, and neither does a dot behind
/// one.
pub proof fn law_trailing_slash_is_no_other_path(path: Seq<char>)
    requires
        path.len() > 0,
    ensures
        same_path(path + seq!['/'], path),
        same_path(path + seq!['/', '.'], path),
{
    let none = Seq::<char>::empty();
    let dot = seq!['.'];
    let a = path + seq!['/'];
    let b = path + seq!['/', '.'];
    lemma_split_concat(path, none, '/');
    lemma_split_concat(path, dot, '/');
    assert(a =~= path + seq!['/'] + none);
    assert(b =~= path + seq!['/'] + dot);
    assert(none.take(0) =~= none && dot.take(1) =~= dot);
    lemma_index_is(none, '/', 0);
    lemma_index_is(dot, '/', 1);
    let pieces = split_of(path, '/');
    law_split_joins_again(path, '/');
    assert(split_of(a, '/') =~= pieces.push(none));
    assert(split_of(b, '/') =~= pieces.push(dot));
    law_path_pieces(pieces, none, path);
    law_path_pieces(pieces, dot, path);
    assert(a[0] == path[0] && b[0] == path[0]);
}

/// A slash at the end changes neither the name of a file nor its parent.
pub proof fn law_trailing_slash_is_ignored(path: Seq<char>)
    requires
        path.len() > 0,
        path.last() != '/',
    ensures
        file_name(path + seq!['/']) == file_name(path),
        parent_dir(path + seq!['/']) == parent_dir(path),
{
    let whole = path + seq!['/'];
    let n = path.len() as int;
    assert(whole.last() == '/');
    assert(last_slash(whole) == n);
    assert(whole[0] == path[0]);
    if n > 1 {
        assert(whole[1] == path[1]);
    }
    let lead = lead_of(whole);
    assert(lead == lead_of(path));
    assert(whole.skip(n + 1).len() == 0);
    assert(whole.take(n) =~= path);
    assert(without_tail(whole, lead) == without_tail(path, lead));
}

/// A bare name is its own file name, and its parent is the empty path.
pub proof fn law_bare_name(name: Seq<char>)
    requires
        name.len() > 0,
        lacks(name, '/'),
        name != seq!['.'],
    ensures
        parent_dir(name) == Some(Seq::<char>::empty()),
        name != seq!['.', '.'] ==> file_name(name) == Some(name),
        name == seq!['.', '.'] ==> file_name(name) is None,
{
    lemma_slash_is_last(name);
    if last_slash(name) >= 0 {
        assert(name[last_slash(name)] == '/');
    }
    assert(name[0] != '/');
    if name.len() > 1 {
        assert(name[1] != '/');
    }
    if name.len() == 1 && name[0] == '.' {
        assert(name =~= seq!['.']);
    }
    assert(lead_of(name) == 0);
    assert(name.skip(0) =~= name);
    assert(name.take(0) =~= Seq::<char>::empty());
}

} // verus!
