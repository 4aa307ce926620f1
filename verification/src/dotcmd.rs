//! Pluggable dot commands: which component answers `.<name>`, and the list for
//! `.help`.
use crate::bytes::{
    ascii_bytes, ascii_of, bytes_before, bytes_end_in, bytes_less, ends_in, lemma_bytes_order,
};
use crate::model::{message_of, views};
use crate::names::NameMap;
use crate::render::{lines_of, spi_render_rows};
use crate::sibling::{core_duckerror_message, ExecReply};
use crate::sqltype::{split_words, words_of};
use crate::text::{
    ascii_lowercase, decimal_of, decimal_u128, lemma_text_order, lower, same_text, text_before,
    text_less, trim, trim_of,
};
use vstd::prelude::*;

verus! {

/// A command that a component declares.
#[derive(Debug)]
pub struct CommandSpec {
    pub name: String,
    pub id: u64,
    pub summary: String,
    pub usage: String,
}

/// A command as it is listed: name, summary and usage.
pub type Info = (Seq<char>, Seq<char>, Seq<char>);

pub open spec fn info_view(i: (String, String, String)) -> Info {
    (i.0@, i.1@, i.2@)
}

pub open spec fn infos_view(v: Seq<(String, String, String)>) -> Seq<Info> {
    v.map_values(|i: (String, String, String)| info_view(i))
}

pub open spec fn spec_info(s: CommandSpec) -> Info {
    (s.name@, s.summary@, s.usage@)
}

/// One entry comes before another: by name, then by summary, then by usage.
pub open spec fn info_less(a: Info, b: Info) -> bool {
    ||| text_less(a.0, b.0)
    ||| a.0 == b.0 && text_less(a.1, b.1)
    ||| a.0 == b.0 && a.1 == b.1 && text_less(a.2, b.2)
}

/// A sorted list with one more entry in its place, behind its equals.
pub open spec fn with_info(list: Seq<Info>, x: Info) -> Seq<Info>
    decreases list.len(),
{
    if list.len() == 0 {
        seq![x]
    } else if info_less(x, list[0]) {
        seq![x] + list
    } else {
        seq![list[0]] + with_info(list.drop_first(), x)
    }
}

/// The entries of the commands, added to a sorted list one after another.
pub open spec fn with_specs(list: Seq<Info>, specs: Seq<CommandSpec>) -> Seq<Info>
    decreases specs.len(),
{
    if specs.len() == 0 {
        list
    } else {
        with_info(with_specs(list, specs.drop_last()), spec_info(specs.last()))
    }
}

/// The routes with those of the commands of component `idx`. A name that has a route
/// already keeps it.
pub open spec fn with_routes(
    routes: Map<Seq<char>, (usize, u64)>,
    idx: usize,
    specs: Seq<CommandSpec>,
) -> Map<Seq<char>, (usize, u64)>
    decreases specs.len(),
{
    if specs.len() == 0 {
        routes
    } else {
        let before = with_routes(routes, idx, specs.drop_last());
        let name = lower(specs.last().name@);
        if before.contains_key(name) {
            before
        } else {
            before.insert(name, (idx, specs.last().id))
        }
    }
}

/// The commands of all loaded components.
#[derive(Debug)]
pub struct DotcmdRegistry {
    /// The component and the command identifier behind each name in lower case.
    pub by_name: NameMap<(usize, u64)>,
    /// Name, summary and usage of every command, sorted.
    pub infos: Vec<(String, String, String)>,
}

fn info_before(x: &CommandSpec, b: &(String, String, String)) -> (r: bool)
    ensures
        r == info_less(spec_info(*x), info_view(*b)),
{
    if text_before(x.name.as_str(), b.0.as_str()) {
        return true;
    }
    if !same_text(x.name.as_str(), b.0.as_str()) {
        return false;
    }
    if text_before(x.summary.as_str(), b.1.as_str()) {
        return true;
    }
    if !same_text(x.summary.as_str(), b.1.as_str()) {
        return false;
    }
    text_before(x.usage.as_str(), b.2.as_str())
}

fn insert_info(list: &mut Vec<(String, String, String)>, x: &CommandSpec)
    ensures
        infos_view(final(list)@) == with_info(infos_view(old(list)@), spec_info(*x)),
{
    let ghost all = infos_view(list@);
    let ghost p = spec_info(*x);
    let mut i: usize = 0;
    assert(all.skip(0) =~= all);
    assert(all.take(0) + with_info(all.skip(0), p) =~= with_info(all, p));
    while i < list.len()
        invariant
            list@ == old(list)@,
            all == infos_view(list@),
            p == spec_info(*x),
            i <= list@.len(),
            with_info(all, p) == all.take(i as int) + with_info(all.skip(i as int), p),
        decreases list@.len() - i,
    {
        let ghost rest = all.skip(i as int);
        assert(rest[0] == info_view(list@[i as int]));
        if info_before(x, &list[i]) {
            list.insert(i, (x.name.clone(), x.summary.clone(), x.usage.clone()));
            assert(infos_view(list@) =~= all.take(i as int) + (seq![p] + rest));
            return;
        }
        assert(rest.drop_first() =~= all.skip(i + 1));
        assert(all.take(i as int) + (seq![rest[0]] + with_info(all.skip(i + 1), p)) =~= all.take(i + 1)
            + with_info(all.skip(i + 1), p));
        i += 1;
    }
    list.push((x.name.clone(), x.summary.clone(), x.usage.clone()));
    assert(all.skip(i as int) =~= Seq::<Info>::empty());
    assert(infos_view(list@) =~= all.take(i as int) + seq![p]);
}

impl DotcmdRegistry {
    pub fn new() -> (r: DotcmdRegistry)
        ensures
            r.by_name@ == Map::<Seq<char>, (usize, u64)>::empty(),
            r.infos@.len() == 0,
    {
        DotcmdRegistry { by_name: NameMap::new(), infos: Vec::new() }
    }

    /// Adds the commands of component `idx`.
    pub fn add_component(&mut self, idx: usize, specs: &Vec<CommandSpec>)
        ensures
            final(self).by_name@ == with_routes(old(self).by_name@, idx, specs@),
            infos_view(final(self).infos@) == with_specs(infos_view(old(self).infos@), specs@),
    {
        let mut i: usize = 0;
        assert(specs@.take(0) =~= Seq::<CommandSpec>::empty());
        while i < specs.len()
            invariant
                i <= specs@.len(),
                self.by_name@ == with_routes(old(self).by_name@, idx, specs@.take(i as int)),
                infos_view(self.infos@) == with_specs(infos_view(old(self).infos@), specs@.take(i as int)),
            decreases specs@.len() - i,
        {
            assert(specs@.take(i + 1).drop_last() =~= specs@.take(i as int));
            let name = ascii_lowercase(specs[i].name.as_str());
            if !self.by_name.contains(name.as_str()) {
                self.by_name.insert(name, (idx, specs[i].id));
            }
            insert_info(&mut self.infos, &specs[i]);
            i += 1;
        }
        assert(specs@.take(specs@.len() as int) =~= specs@);
    }

    /// Every command, sorted.
    pub fn list_commands(&self) -> (r: Vec<(String, String, String)>)
        ensures
            infos_view(r@) == infos_view(self.infos@),
    {
        let mut out: Vec<(String, String, String)> = Vec::new();
        let mut i: usize = 0;
        while i < self.infos.len()
            invariant
                i <= self.infos@.len(),
                out@.len() == i,
                forall|j: int| 0 <= j < i ==> info_view(#[trigger] out@[j]) == info_view(self.infos@[j]),
            decreases self.infos@.len() - i,
        {
            let e = &self.infos[i];
            out.push((e.0.clone(), e.1.clone(), e.2.clone()));
            i += 1;
        }
        assert(infos_view(out@) =~= infos_view(self.infos@));
        out
    }

    /// The component and the command identifier behind a name, whatever its case.
    pub fn route(&self, name: &str) -> (r: Option<(usize, u64)>)
        ensures
            r == (if self.by_name@.contains_key(lower(name@)) {
                Some(self.by_name@[lower(name@)])
            } else {
                None
            }),
    {
        match self.by_name.get(ascii_lowercase(name).as_str()) {
            Some(p) => Some(*p),
            None => None,
        }
    }
}

/// A change of the shell's state that a command asks for.
#[derive(Debug)]
pub struct StateDelta {
    pub key: String,
    pub value: String,
}

/// What a command hands back to the shell.
#[derive(Debug)]
pub struct Outcome {
    pub text: String,
    pub state_deltas: Vec<StateDelta>,
}

/// The answer of a component to a command.
#[derive(Debug)]
pub enum InvokeReply {
    Done(Outcome),
    Failed(String),
    Trapped(String),
}

/// What invoking `.<name>` hands back.
pub fn invoke_outcome(name: &str, reply: InvokeReply) -> (r: Result<Outcome, String>)
    ensures
        match reply {
            InvokeReply::Done(o) => r == Ok::<Outcome, String>(o),
            InvokeReply::Failed(m) => r == Err::<Outcome, String>(m),
            InvokeReply::Trapped(t) => r matches Err(m) && m@ == "dot-command '"@ + name@
                + "' trapped: "@ + t@,
        },
{
    match reply {
        InvokeReply::Done(o) => Ok(o),
        InvokeReply::Failed(m) => Err(m),
        InvokeReply::Trapped(t) => {
            let mut m = "dot-command '".to_owned();
            m.append(name);
            m.append("' trapped: ");
            m.append(t.as_str());
            Err(m)
        },
    }
}

/// An outcome from its text and its pairs of key and value.
pub fn make_cli_outcome(text: String, deltas: Vec<(String, String)>) -> (r: Outcome)
    ensures
        r.text == text,
        r.state_deltas@.len() == deltas@.len(),
        forall|i: int|
            0 <= i < deltas@.len() ==> (#[trigger] r.state_deltas@[i]).key == deltas@[i].0
                && r.state_deltas@[i].value == deltas@[i].1,
{
    let mut state_deltas: Vec<StateDelta> = Vec::new();
    for d in it: deltas
        invariant
            it.seq() == deltas@,
            state_deltas@.len() == it.index(),
            forall|i: int|
                0 <= i < state_deltas@.len() ==> (#[trigger] state_deltas@[i]).key == deltas@[i].0
                    && state_deltas@[i].value == deltas@[i].1,
    {
        let (key, value) = d;
        state_deltas.push(StateDelta { key, value });
    }
    Outcome { text, state_deltas }
}

/// What a dot command is told of a statement that it had run: its rows as lines.
pub fn spi_query(reply: ExecReply) -> (r: Result<String, String>)
    ensures
        match reply {
            ExecReply::Rows(q) => r matches Ok(text) && text@ == lines_of(q@.rows),
            ExecReply::Failed(e) => r matches Err(m) && m@ == message_of(e@),
            ExecReply::Trapped(t) => r matches Err(m) && m@ == "spi query trapped: "@ + t@,
        },
{
    match reply {
        ExecReply::Rows(q) => Ok(spi_render_rows(&q)),
        ExecReply::Failed(e) => Err(core_duckerror_message(e)),
        ExecReply::Trapped(t) => {
            let mut m = "spi query trapped: ".to_owned();
            m.append(t.as_str());
            Err(m)
        },
    }
}

// ---------------------------------------------------------------------------
// Editing
// ---------------------------------------------------------------------------

/// The name of the file that an edited text is kept in.
pub fn edit_file_name(pid: u32, millis: u128, hint_suffix: &str) -> (r: String)
    ensures
        r@ == "dotcmd-edit-"@ + decimal_of(pid as int) + "-"@ + decimal_of(millis as int) + trim_of(
            hint_suffix@,
        ),
{
    let mut out = "dotcmd-edit-".to_owned();
    out.append(decimal_u128(pid as u128).as_str());
    out.append("-");
    out.append(decimal_u128(millis).as_str());
    out.append(trim(hint_suffix));
    out
}

/// The editor to run: its setting, its program and its arguments.
#[derive(Debug)]
pub struct EditorCommand {
    pub setting: String,
    pub program: String,
    pub args: Vec<String>,
}

/// The editor setting: the first of the two that is set, else `vi`.
pub open spec fn editor_setting(editor: Option<Seq<char>>, visual: Option<Seq<char>>) -> Seq<char> {
    match editor {
        Some(e) => e,
        None => match visual {
            Some(v) => v,
            None => "vi"@,
        },
    }
}

/// The editor command: the words of the setting, the first of them the program; `vi`
/// where there is none.
pub fn editor_command(editor: Option<&str>, visual: Option<&str>) -> (r: EditorCommand)
    ensures
        ({
            let setting = editor_setting(
                match editor {
                    Some(e) => Some(e@),
                    None => None,
                },
                match visual {
                    Some(v) => Some(v@),
                    None => None,
                },
            );
            let words = words_of(setting);
            &&& r.setting@ == setting
            &&& r.program@ == (if words.len() == 0 {
                "vi"@
            } else {
                words[0]
            })
            &&& views(r.args@) == (if words.len() == 0 {
                Seq::<Seq<char>>::empty()
            } else {
                words.drop_first()
            })
        }),
{
    let setting: &str = match editor {
        Some(e) => e,
        None => match visual {
            Some(v) => v,
            None => "vi",
        },
    };
    let words = split_words(setting);
    let ghost all = words_of(setting@);
    assert(views(words@) == all);
    if words.len() == 0 {
        let args: Vec<String> = Vec::new();
        assert(views(args@) =~= Seq::<Seq<char>>::empty());
        return EditorCommand { setting: setting.to_owned(), program: "vi".to_owned(), args };
    }
    assert(all[0] == words@[0]@);
    let program = words[0].clone();
    let mut args: Vec<String> = Vec::new();
    let mut i: usize = 1;
    while i < words.len()
        invariant
            1 <= i <= words@.len(),
            views(words@) == all,
            args@.len() == i - 1,
            forall|j: int| 0 <= j < args@.len() ==> (#[trigger] args@[j])@ == all[j + 1],
        decreases words@.len() - i,
    {
        assert(all[i as int] == words@[i as int]@);
        args.push(words[i].clone());
        i += 1;
    }
    assert(views(args@) =~= all.drop_first());
    EditorCommand { setting: setting.to_owned(), program, args }
}

// ---------------------------------------------------------------------------
// Component files
// ---------------------------------------------------------------------------

/// The name of a component file: something before `.wasm`.
pub open spec fn is_wasm_name(name: Seq<u8>) -> bool {
    name.len() > ".wasm"@.len() && ends_in(name, ascii_of(".wasm"@))
}

/// The names of component files among the names in a directory.
pub open spec fn wasm_files(names: Seq<Seq<u8>>) -> Seq<Seq<u8>>
    decreases names.len(),
{
    if names.len() == 0 {
        Seq::empty()
    } else if is_wasm_name(names.last()) {
        wasm_files(names.drop_last()).push(names.last())
    } else {
        wasm_files(names.drop_last())
    }
}

/// No name comes before the one that it stands behind.
pub open spec fn in_order(names: Seq<Seq<u8>>) -> bool {
    forall|i: int, j: int|
        0 <= i < j < names.len() ==> !bytes_less(#[trigger] names[j], #[trigger] names[i])
}

fn copy_name(name: &Vec<u8>) -> (r: Vec<u8>)
    ensures
        r@ == name@,
{
    let mut out: Vec<u8> = Vec::new();
    let mut i: usize = 0;
    while i < name.len()
        invariant
            i <= name@.len(),
            out@ == name@.take(i as int),
        decreases name@.len() - i,
    {
        out.push(name[i]);
        i += 1;
        assert(out@ =~= name@.take(i as int));
    }
    assert(out@ =~= name@);
    out
}

/// The component files of a directory, in the order in which they are loaded.
pub fn component_files(names: &Vec<Vec<u8>>) -> (r: Vec<Vec<u8>>)
    ensures
        in_order(views(r@)),
        views(r@).to_multiset() == wasm_files(views(names@)).to_multiset(),
{
    let ghost all = views(names@);
    let mut out: Vec<Vec<u8>> = Vec::new();
    proof {
        reveal_strlit(".wasm");
    }
    let suffix = ascii_bytes(".wasm");
    let mut i: usize = 0;
    assert(views(out@) =~= wasm_files(all.take(0)));
    while i < names.len()
        invariant
            i <= names@.len(),
            all == views(names@),
            suffix@ == ascii_of(".wasm"@),
            suffix@.len() == ".wasm"@.len(),
            in_order(views(out@)),
            views(out@).to_multiset() == wasm_files(all.take(i as int)).to_multiset(),
        decreases names@.len() - i,
    {
        let name = &names[i];
        assert(all.take(i + 1).drop_last() =~= all.take(i as int));
        assert(all.take(i + 1).last() == name@);
        if name.len() > suffix.len() && bytes_end_in(name, &suffix) {
            let ghost before = views(out@);
            let n: usize = out.len();
            let mut p: usize = n;
            while p > 0 && bytes_before(name, &out[p - 1])
                invariant
                    p <= n == out@.len(),
                    before == views(out@),
                    forall|k: int| p <= k < n ==> bytes_less(name@, #[trigger] before[k]),
                decreases p,
            {
                assert(before[p - 1] == out@[p - 1]@);
                p -= 1;
            }
            proof {
                if p > 0 {
                    assert(before[p - 1] == out@[p - 1]@);
                    assert(!bytes_less(name@, before[p - 1]));
                }
            }
            out.insert(p, copy_name(name));
            assert(views(out@) =~= before.insert(p as int, name@));
            proof {
                lemma_inserted_in_order(before, p as int, name@);
                lemma_one_more(before, wasm_files(all.take(i as int)), p as int, name@);
            }
        }
        i += 1;
    }
    assert(all.take(all.len() as int) =~= all);
    out
}

proof fn lemma_one_more(a: Seq<Seq<u8>>, b: Seq<Seq<u8>>, p: int, x: Seq<u8>)
    requires
        a.to_multiset() == b.to_multiset(),
        0 <= p <= a.len(),
    ensures
        a.insert(p, x).to_multiset() == b.push(x).to_multiset(),
{
    broadcast use vstd::seq_lib::group_to_multiset_ensures;

    assert(a.insert(p, x).to_multiset() =~= a.to_multiset().insert(x));
    assert(b.push(x).to_multiset() =~= b.to_multiset().insert(x));
}

proof fn lemma_inserted_in_order(names: Seq<Seq<u8>>, p: int, x: Seq<u8>)
    requires
        in_order(names),
        0 <= p <= names.len(),
        forall|k: int| p <= k < names.len() ==> bytes_less(x, #[trigger] names[k]),
        p > 0 ==> !bytes_less(x, names[p - 1]),
    ensures
        in_order(names.insert(p, x)),
{
    let out = names.insert(p, x);
    assert forall|i: int, j: int| 0 <= i < j < out.len() implies !bytes_less(
        #[trigger] out[j],
        #[trigger] out[i],
    ) by {
        if j == p {
            lemma_bytes_order(x, names[i], names[p - 1]);
            lemma_bytes_order(names[p - 1], names[i], x);
            if i < p - 1 {
                assert(!bytes_less(names[p - 1], names[i]));
            }
        } else if i == p {
            lemma_bytes_order(x, names[j - 1], x);
        } else {
            let a = if i < p {
                names[i]
            } else {
                names[i - 1]
            };
            let b = if j < p {
                names[j]
            } else {
                names[j - 1]
            };
            assert(out[i] == a && out[j] == b);
        }
    }
}

// ---------------------------------------------------------------------------
// Laws
// ---------------------------------------------------------------------------

/// No entry comes before the one that it stands behind.
pub open spec fn sorted(list: Seq<Info>) -> bool {
    forall|i: int, j: int|
        0 <= i < j < list.len() ==> !info_less(#[trigger] list[j], #[trigger] list[i])
}

/// The command list stays sorted, and each addition adds exactly one entry.
pub proof fn law_command_list_is_sorted(list: Seq<Info>, x: Info)
    requires
        sorted(list),
    ensures
        sorted(with_info(list, x)),
        with_info(list, x).to_multiset() == list.to_multiset().insert(x),
    decreases list.len(),
{
    let out = with_info(list, x);
    broadcast use vstd::seq_lib::group_to_multiset_ensures;

    if list.len() == 0 {
        assert(out =~= Seq::<Info>::empty().push(x));
        assert(list =~= Seq::<Info>::empty());
    } else if info_less(x, list[0]) {
        assert forall|i: int, j: int| 0 <= i < j < out.len() implies !info_less(
            #[trigger] out[j],
            #[trigger] out[i],
        ) by {
            if i == 0 {
                lemma_info_order(x, list[0], list[j - 1]);
            } else {
                assert(out[i] == list[i - 1] && out[j] == list[j - 1]);
            }
        }
        assert(out =~= list.insert(0, x));
        assert(out.to_multiset() =~= list.to_multiset().insert(x));
    } else {
        let rest = list.drop_first();
        assert forall|i: int, j: int| 0 <= i < j < rest.len() implies !info_less(
            #[trigger] rest[j],
            #[trigger] rest[i],
        ) by {
            assert(rest[i] == list[i + 1] && rest[j] == list[j + 1]);
        }
        law_command_list_is_sorted(rest, x);
        let tail = with_info(rest, x);
        assert forall|i: int, j: int| 0 <= i < j < out.len() implies !info_less(
            #[trigger] out[j],
            #[trigger] out[i],
        ) by {
            if i == 0 {
                assert(tail.contains(tail[j - 1]));
                assert(tail.to_multiset().contains(tail[j - 1]));
                if tail[j - 1] != x {
                    assert(rest.to_multiset().contains(tail[j - 1]));
                    assert(rest.contains(tail[j - 1]));
                    let k = rest.index_of(tail[j - 1]);
                    assert(list[k + 1] == tail[j - 1]);
                }
            } else {
                assert(out[i] == tail[i - 1] && out[j] == tail[j - 1]);
            }
        }
        assert(list =~= rest.insert(0, list[0]));
        assert(out =~= tail.insert(0, list[0]));
        assert(out.to_multiset() =~= list.to_multiset().insert(x));
    }
}

proof fn lemma_info_order(a: Info, b: Info, c: Info)
    ensures
        !info_less(b, b),
        info_less(a, b) && !info_less(c, b) ==> !info_less(c, a),
{
    lemma_text_order(b.0, b.0, b.0);
    lemma_text_order(b.1, b.1, b.1);
    lemma_text_order(b.2, b.2, b.2);
    lemma_text_order(a.0, b.0, c.0);
    lemma_text_order(a.1, b.1, c.1);
    lemma_text_order(a.2, b.2, c.2);
    lemma_text_order(c.0, a.0, b.0);
    lemma_text_order(c.1, a.1, b.1);
    lemma_text_order(c.2, a.2, b.2);
}

/// The first component that declares a name keeps it: later declarations change the
/// route of no name that has one.
pub proof fn law_first_declaration_wins(
    routes: Map<Seq<char>, (usize, u64)>,
    idx: usize,
    specs: Seq<CommandSpec>,
    name: Seq<char>,
)
    requires
        routes.contains_key(name),
    ensures
        with_routes(routes, idx, specs).contains_key(name),
        with_routes(routes, idx, specs)[name] == routes[name],
    decreases specs.len(),
{
    if specs.len() > 0 {
        law_first_declaration_wins(routes, idx, specs.drop_last(), name);
    }
}

/// A command is reached by its name in any case, through the component that declared it
/// first, under the identifier that it was declared with there.
pub proof fn law_command_leads_to_its_component(
    routes: Map<Seq<char>, (usize, u64)>,
    idx: usize,
    specs: Seq<CommandSpec>,
    i: int,
)
    requires
        0 <= i < specs.len(),
        !routes.contains_key(lower(specs[i].name@)),
        forall|j: int| 0 <= j < i ==> lower((#[trigger] specs[j]).name@) != lower(specs[i].name@),
    ensures
        with_routes(routes, idx, specs).contains_key(lower(specs[i].name@)),
        with_routes(routes, idx, specs)[lower(specs[i].name@)] == (idx, specs[i].id),
    decreases specs.len(),
{
    let front = specs.drop_last();
    let name = lower(specs[i].name@);
    if i < front.len() {
        assert(front[i] == specs[i]);
        assert forall|j: int| 0 <= j < i implies lower((#[trigger] front[j]).name@) != lower(
            front[i].name@,
        ) by {
            assert(front[j] == specs[j]);
        }
        law_command_leads_to_its_component(routes, idx, front, i);
    } else {
        assert forall|j: int| 0 <= j < front.len() implies lower((#[trigger] front[j]).name@) != name by {
            assert(front[j] == specs[j]);
        }
        lemma_routes_are_declared(routes, idx, front, name);
    }
}

proof fn lemma_routes_are_declared(
    routes: Map<Seq<char>, (usize, u64)>,
    idx: usize,
    specs: Seq<CommandSpec>,
    name: Seq<char>,
)
    requires
        !routes.contains_key(name),
        forall|j: int| 0 <= j < specs.len() ==> lower((#[trigger] specs[j]).name@) != name,
    ensures
        !with_routes(routes, idx, specs).contains_key(name),
    decreases specs.len(),
{
    if specs.len() > 0 {
        let front = specs.drop_last();
        assert(lower(specs[specs.len() - 1].name@) != name);
        assert forall|j: int| 0 <= j < front.len() implies lower((#[trigger] front[j]).name@) != name by {
            assert(front[j] == specs[j]);
        }
        lemma_routes_are_declared(routes, idx, front, name);
    }
}

/// A name that no component declares leads nowhere.
pub proof fn law_undeclared_command_leads_nowhere(
    routes: Map<Seq<char>, (usize, u64)>,
    idx: usize,
    specs: Seq<CommandSpec>,
    name: Seq<char>,
)
    requires
        !routes.contains_key(name),
        forall|j: int| 0 <= j < specs.len() ==> lower((#[trigger] specs[j]).name@) != name,
    ensures
        !with_routes(routes, idx, specs).contains_key(name),
{
    lemma_routes_are_declared(routes, idx, specs, name);
}

/// The list of commands gains an entry for each declared command, with its name, summary
/// and usage, and loses none.
pub proof fn law_every_command_is_listed(list: Seq<Info>, specs: Seq<CommandSpec>, next: CommandSpec)
    requires
        sorted(list),
    ensures
        sorted(with_specs(list, specs)),
        with_specs(list, specs.push(next)).to_multiset() == with_specs(list, specs).to_multiset().insert(
            (next.name@, next.summary@, next.usage@),
        ),
        with_specs(list, Seq::empty()) == list,
    decreases specs.len(),
{
    if specs.len() > 0 {
        law_every_command_is_listed(list, specs.drop_last(), specs.last());
        law_command_list_is_sorted(with_specs(list, specs.drop_last()), spec_info(specs.last()));
    }
    assert(specs.push(next).drop_last() =~= specs);
    law_command_list_is_sorted(with_specs(list, specs), spec_info(next));
}

/// The component files are those that are named with something in front of ".wasm".
pub proof fn law_component_file_names(a: Seq<Seq<u8>>, stem: Seq<u8>, name: Seq<u8>)
    ensures
        is_wasm_name(stem + seq![46u8, 119, 97, 115, 109]) <==> stem.len() > 0,
        is_wasm_name(name) ==> name == name.take(name.len() - 5) + seq![46u8, 119, 97, 115, 109],
        is_wasm_name(name) ==> wasm_files(a.push(name)) == wasm_files(a).push(name),
        !is_wasm_name(name) ==> wasm_files(a.push(name)) == wasm_files(a),
        wasm_files(Seq::empty()).len() == 0,
{
    reveal_strlit(".wasm");
    let tail = seq![46u8, 119, 97, 115, 109];
    assert(ascii_of(".wasm"@) =~= tail);
    let whole = stem + tail;
    assert(whole.skip(whole.len() - 5) =~= tail);
    if is_wasm_name(name) {
        assert(name =~= name.take(name.len() - 5) + name.skip(name.len() - 5));
    }
    assert(a.push(name).drop_last() =~= a);
}

/// The editor is the one that is set, then the visual one, then vi.
pub proof fn law_editor_choice(editor: Seq<char>, visual: Option<Seq<char>>, other: Seq<char>)
    ensures
        editor_setting(Some(editor), visual) == editor,
        editor_setting(None, Some(other)) == other,
        editor_setting(None, None) == "vi"@,
{
}

/// Commands are listed by name, those of one name by summary, and those of one summary by
/// usage.
pub proof fn law_command_order(a: Seq<char>, b: Seq<char>, x: Seq<char>, y: Seq<char>, s: Seq<char>, t: Seq<char>)
    ensures
        text_less(a, b) ==> info_less((a, x, s), (b, y, t)),
        text_less(x, y) ==> info_less((a, x, s), (a, y, t)),
        info_less((a, x, s), (a, x, t)) == text_less(s, t),
{
    lemma_text_order(a, a, a);
    lemma_text_order(x, x, x);
}

/// The views show the name, the summary and the usage of each command at its place.
pub proof fn law_command_views(v: Seq<(String, String, String)>, i: int)
    requires
        0 <= i < v.len(),
    ensures
        infos_view(v).len() == v.len(),
        infos_view(v)[i] == (v[i].0@, v[i].1@, v[i].2@),
{
}

/// In a sorted list no command stands behind one with a later name, and in a list of files
/// in order none stands behind one that comes after it.
pub proof fn law_lists_go_upwards(list: Seq<Info>, files: Seq<Seq<u8>>, i: int, j: int)
    requires
        0 <= i < j,
    ensures
        sorted(list) && j < list.len() ==> !text_less(list[j].0, list[i].0),
        in_order(files) && j < files.len() ==> !bytes_less(files[j], files[i]),
{
    if sorted(list) && j < list.len() {
        assert(!info_less(list[j], list[i]));
    }
}

} // verus!
