//! What is made of the choice among the providers of an extension.
use crate::ident::{short_digest, short_form};
use crate::json::{
    get_text, json_get, json_of, json_parsed, member, parse_json, text_member, Json,
};
use crate::manager::ExtensionManager;
use crate::paths::{file_name, file_name_of, join_path, joined};
use crate::text::same_text;
use vstd::prelude::*;

verus! {

/// The outcome of the choice for one extension.
#[derive(Debug)]
pub enum Resolution {
    /// The registry does not know the extension.
    NoEntry,
    /// A provider was chosen. `path` is its artifact, where it is a file.
    Chosen { id: String, kind: String, contract: String, reasoning: String, path: Option<String> },
    /// No provider is admissible.
    Failed { message: String, reasoning: String },
}

/// The sentence that explains a choice to the user.
pub open spec fn explanation(name: Seq<char>, outcome: Resolution) -> Seq<char> {
    match outcome {
        Resolution::NoEntry => "'"@ + name + "': no manifest entry (backward-compat filename load)"@,
        Resolution::Chosen { id, kind, contract, reasoning, .. } => "'"@ + name + "': chosen '"@ + id@
            + "' ["@ + kind@ + "] at contract "@ + short_form(contract@) + "; "@ + reasoning@,
        Resolution::Failed { message, .. } => "'"@ + name + "': "@ + message@,
    }
}

/// The note that is kept of a choice.
pub open spec fn resolution_note(outcome: Resolution) -> Seq<char> {
    match outcome {
        Resolution::NoEntry => "no manifest entry; backward-compat filename resolution"@,
        Resolution::Chosen { id, kind, contract, reasoning, .. } => "chosen: "@ + id@ + " ["@ + kind@
            + "] at contract "@ + short_form(contract@) + "; "@ + reasoning@,
        Resolution::Failed { reasoning, .. } => "FAILED: "@ + reasoning@,
    }
}

/// The component file of a choice, in the directory of extension components: the
/// file name of the chosen artifact, else that of the extension.
pub open spec fn artifact_of(name: Seq<char>, dir: Seq<char>, outcome: Resolution) -> Result<
    Seq<char>,
    Seq<char>,
> {
    match outcome {
        Resolution::NoEntry => Ok(joined(dir, name + ".wasm"@)),
        Resolution::Chosen { path, .. } => match path {
            Some(p) => match file_name(p@) {
                Some(f) => Ok(joined(dir, f)),
                None => Ok(joined(dir, name + ".wasm"@)),
            },
            None => Ok(joined(dir, name + ".wasm"@)),
        },
        Resolution::Failed { message, .. } => Err(message@),
    }
}

/// Explains a choice to the user.
pub fn explain_resolution(name: &str, outcome: &Resolution) -> (r: String)
    ensures
        r@ == explanation(name@, *outcome),
{
    let mut m = "'".to_owned();
    m.append(name);
    match outcome {
        Resolution::NoEntry => {
            m.append("': no manifest entry (backward-compat filename load)");
        },
        Resolution::Chosen { id, kind, contract, reasoning, .. } => {
            m.append("': chosen '");
            m.append(id.as_str());
            m.append("' [");
            m.append(kind.as_str());
            m.append("] at contract ");
            m.append(short_digest(contract.as_str()).as_str());
            m.append("; ");
            m.append(reasoning.as_str());
        },
        Resolution::Failed { message, .. } => {
            m.append("': ");
            m.append(message.as_str());
        },
    }
    m
}

fn note_of(outcome: &Resolution) -> (r: String)
    ensures
        r@ == resolution_note(*outcome),
{
    match outcome {
        Resolution::NoEntry => "no manifest entry; backward-compat filename resolution".to_owned(),
        Resolution::Chosen { id, kind, contract, reasoning, .. } => {
            let mut m = "chosen: ".to_owned();
            m.append(id.as_str());
            m.append(" [");
            m.append(kind.as_str());
            m.append("] at contract ");
            m.append(short_digest(contract.as_str()).as_str());
            m.append("; ");
            m.append(reasoning.as_str());
            m
        },
        Resolution::Failed { reasoning, .. } => {
            let mut m = "FAILED: ".to_owned();
            m.append(reasoning.as_str());
            m
        },
    }
}

impl ExtensionManager {
    /// Notes the choice for an extension, and gives the component file to load.
    pub fn resolve_provider_artifact(&mut self, name: &str, dir: &str, outcome: &Resolution) -> (r: Result<
        String,
        String,
    >)
        ensures
            *final(self) == (ExtensionManager {
                last_resolutions: final(self).last_resolutions,
                ..*old(self)
            }),
            final(self).last_resolutions@.dom() == old(self).last_resolutions@.dom().insert(name@),
            forall|k: Seq<char>|
                k != name@ && old(self).last_resolutions@.contains_key(k)
                    ==> #[trigger] final(self).last_resolutions@[k] == old(self).last_resolutions@[k],
            final(self).last_resolutions@[name@]@ == resolution_note(*outcome),
            old(self).wf() ==> final(self).wf(),
            match r {
                Ok(p) => artifact_of(name@, dir@, *outcome) == Ok::<Seq<char>, Seq<char>>(p@),
                Err(m) => artifact_of(name@, dir@, *outcome) == Err::<Seq<char>, Seq<char>>(m@),
            },
    {
        self.last_resolutions.insert(name.to_owned(), note_of(outcome));
        assert(self.last_resolutions@.dom() =~= old(self).last_resolutions@.dom().insert(name@));
        let mut file = name.to_owned();
        file.append(".wasm");
        match outcome {
            Resolution::NoEntry => Ok(join_path(dir, file.as_str())),
            Resolution::Chosen { path, .. } => {
                if let Some(p) = path {
                    if let Some(f) = file_name_of(p.as_str()) {
                        return Ok(join_path(dir, f.as_str()));
                    }
                }
                Ok(join_path(dir, file.as_str()))
            },
            Resolution::Failed { message, .. } => Err(message.clone()),
        }
    }
}

// ---------------------------------------------------------------------------
// Conformance suites
// ---------------------------------------------------------------------------

/// The first entry with the given name, from position `from` on.
pub open spec fn entry_named(entries: Seq<Json>, name: Seq<char>, from: int) -> Option<Json>
    decreases entries.len() - from,
{
    if !(0 <= from < entries.len()) {
        None
    } else if text_member(entries[from], "name"@) == Some(name) {
        Some(entries[from])
    } else {
        entry_named(entries, name, from + 1)
    }
}

/// The source directory that the registry gives for an extension.
pub open spec fn source_of(index: Json, name: Seq<char>) -> Option<Seq<char>> {
    match member(index, "extensions"@) {
        Some(Json::Array(entries)) => match entry_named(entries, name, 0) {
            Some(e) => text_member(e, "source"@),
            None => None,
        },
        _ => None,
    }
}

/// The registry index, from the text of its file; none where there is no file or it is
/// no JSON.
pub fn read_registry_index(text: Option<&str>) -> (r: Option<serde_json::Value>)
    ensures
        match text {
            Some(t) => match json_parsed(t@) {
                Ok(j) => r matches Some(v) && json_of(v) == j,
                Err(_) => r is None,
            },
            None => r is None,
        },
{
    match text {
        Some(t) => match parse_json(t) {
            Ok(v) => Some(v),
            Err(_) => None,
        },
        None => None,
    }
}

/// The two files of the conformance suite of an extension, where the registry gives
/// its source directory: the statements and what they are expected to print.
pub fn conformance_files(index: &Option<serde_json::Value>, name: &str, workspace: &str) -> (r: Option<
    (String, String),
>)
    ensures
        match index {
            Some(v) => match source_of(json_of(*v), name@) {
                Some(source) => r matches Some(p) && p.0@ == joined(
                    joined(workspace@, source),
                    "conformance.sql"@,
                ) && p.1@ == joined(joined(workspace@, source), "conformance.expected"@),
                None => r is None,
            },
            None => r is None,
        },
{
    let doc = match index {
        Some(v) => v,
        None => {
            return None;
        },
    };
    let list = match json_get(doc, "extensions") {
        Some(x) => match x.as_array() {
            Some(a) => a,
            None => {
                return None;
            },
        },
        None => {
            return None;
        },
    };
    let ghost entries = list@.map_values(|x: serde_json::Value| json_of(x));
    let mut i: usize = 0;
    while i < list.len()
        invariant
            i <= list@.len(),
            entries == list@.map_values(|x: serde_json::Value| json_of(x)),
            *index == Some(*doc),
            source_of(json_of(*doc), name@) == (match entry_named(entries, name@, i as int) {
                Some(e) => text_member(e, "source"@),
                None => None,
            }),
        decreases list@.len() - i,
    {
        if let Some(n) = get_text(&list[i], "name") {
            if same_text(n, name) {
                return match get_text(&list[i], "source") {
                    Some(source) => {
                        let dir = join_path(workspace, source);
                        Some(
                            (
                                join_path(dir.as_str(), "conformance.sql"),
                                join_path(dir.as_str(), "conformance.expected"),
                            ),
                        )
                    },
                    None => None,
                };
            }
        }
        i += 1;
    }
    None
}

// ---------------------------------------------------------------------------
// Laws
// ---------------------------------------------------------------------------

/// What is told of a choice: the provider, its kind, the first twelve characters of its
/// contract and the reasoning; or why there is none.
pub proof fn law_choice_is_explained(name: Seq<char>, outcome: Resolution)
    ensures
        match outcome {
            Resolution::NoEntry => {
                &&& explanation(name, outcome) == "'"@ + name
                    + "': no manifest entry (backward-compat filename load)"@
                &&& resolution_note(outcome)
                    == "no manifest entry; backward-compat filename resolution"@
            },
            Resolution::Chosen { id, kind, contract, reasoning, .. } => {
                let short = if contract@.len() > 12 {
                    contract@.take(12)
                } else {
                    contract@
                };
                let said = id@ + " ["@ + kind@ + "] at contract "@ + short + "; "@ + reasoning@;
                &&& explanation(name, outcome) == "'"@ + name + "': chosen '"@ + id@ + "' ["@ + kind@
                    + "] at contract "@ + short + "; "@ + reasoning@
                &&& resolution_note(outcome) == "chosen: "@ + said
            },
            Resolution::Failed { message, reasoning } => {
                &&& explanation(name, outcome) == "'"@ + name + "': "@ + message@
                &&& resolution_note(outcome) == "FAILED: "@ + reasoning@
            },
        },
{
    if let Resolution::Chosen { id, kind, contract, reasoning, .. } = outcome {
        let short = short_form(contract@);
        assert(resolution_note(outcome) =~= "chosen: "@ + (id@ + " ["@ + kind@ + "] at contract "@
            + short + "; "@ + reasoning@));
    }
}

/// The artifact lies in the extensions directory: under the file name of the chosen
/// artifact, or under the extension's own name with ".wasm". A failed choice has none.
pub proof fn law_artifact_lies_in_the_directory(name: Seq<char>, dir: Seq<char>, outcome: Resolution)
    ensures
        match (outcome, artifact_of(name, dir, outcome)) {
            (Resolution::NoEntry, Ok(p)) => p == joined(dir, name + ".wasm"@),
            (Resolution::Chosen { path: Some(a), .. }, Ok(p)) => p == joined(
                dir,
                (match file_name(a@) {
                    Some(f) => f,
                    None => name + ".wasm"@,
                }),
            ),
            (Resolution::Chosen { path: None, .. }, Ok(p)) => p == joined(dir, name + ".wasm"@),
            (Resolution::Failed { message, .. }, Err(m)) => m == message@,
            _ => false,
        },
{
}

/// The source of an extension is that of the first entry of its name in the index.
pub proof fn law_source_is_of_the_first_entry(
    entries: Seq<Json>,
    entry: Map<Seq<char>, Json>,
    rest: Seq<Json>,
    name: Seq<char>,
    source: Seq<char>,
    index: Map<Seq<char>, Json>,
)
    requires
        index.contains_pair("extensions"@, Json::Array(entries + seq![Json::Object(entry)] + rest)),
        forall|i: int|
            0 <= i < entries.len() ==> text_member(#[trigger] entries[i], "name"@) != Some(name),
        entry.contains_pair("name"@, Json::Text(name)),
        entry.contains_pair("source"@, Json::Text(source)),
    ensures
        source_of(Json::Object(index), name) == Some(source),
{
    let all = entries + seq![Json::Object(entry)] + rest;
    assert(all[entries.len() as int] == Json::Object(entry));
    lemma_entry_named(all, name, 0, entries.len() as int);
}

proof fn lemma_entry_named(entries: Seq<Json>, name: Seq<char>, from: int, k: int)
    requires
        0 <= from <= k < entries.len(),
        text_member(entries[k], "name"@) == Some(name),
        forall|i: int|
            from <= i < k ==> text_member(#[trigger] entries[i], "name"@) != Some(name),
    ensures
        entry_named(entries, name, from) == Some(entries[k]),
    decreases k - from,
{
    if from < k {
        assert(text_member(entries[from], "name"@) != Some(name));
        lemma_entry_named(entries, name, from + 1, k);
    }
}

} // verus!
