//! The export/import boundary: a definition travels as a JSON envelope
//! `{version, exported_at, agent}` whose `version` must equal 1.
//!
//! Reading the envelope is the JSON parser's work; what it finds in a given
//! text is named by [`export_of`]. The decisions — which fields are
//! required, when the version is refused, how a name collision is resolved —
//! are verified here.

use vstd::prelude::*;

use crate::codec::{now_rfc3339, Agent};
use crate::header::opt_view;
use crate::text;

verus! {

/// The agent payload of an export envelope.
pub struct AgentData {
    pub name: String,
    pub icon: String,
    pub system_prompt: String,
    pub default_task: Option<String>,
    pub model: String,
    pub hooks: Option<String>,
    pub description: Option<String>,
    pub tools: Option<String>,
    pub color: Option<String>,
}

/// A definition as externally representable: versioned, timestamped payload.
pub struct AgentExport {
    pub version: u32,
    pub exported_at: String,
    pub agent: AgentData,
}

/// Why an import was refused.
#[derive(Debug)]
pub enum ImportError {
    /// The text is not a usable envelope; carries the parser's words or the
    /// missing field's name.
    InvalidFormat(String),
    /// The envelope's version is not 1.
    UnsupportedVersion(u64),
}

impl ImportError {
    /// A human-readable cause.
    pub fn message(&self) -> (r: String)
        ensures
            match self {
                ImportError::InvalidFormat(d) => r@ == d@,
                ImportError::UnsupportedVersion(_) => r@
                    == "Unsupported export version: only version 1 is supported"@,
            },
    {
        match self {
            ImportError::InvalidFormat(d) => d.clone(),
            ImportError::UnsupportedVersion(_) => String::from_str(
                "Unsupported export version: only version 1 is supported",
            ),
        }
    }
}

/// The plain values an envelope can carry.
pub struct RawExport {
    pub version: Option<u64>,
    pub name: Option<String>,
    pub icon: Option<String>,
    pub system_prompt: Option<String>,
    pub default_task: Option<String>,
    pub model: Option<String>,
    pub hooks: Option<String>,
    pub description: Option<String>,
    pub tools: Option<String>,
    pub color: Option<String>,
}

/// Ghost image of [`RawExport`].
pub struct RawExportView {
    pub version: Option<u64>,
    pub name: Option<Seq<char>>,
    pub icon: Option<Seq<char>>,
    pub system_prompt: Option<Seq<char>>,
    pub default_task: Option<Seq<char>>,
    pub model: Option<Seq<char>>,
    pub hooks: Option<Seq<char>>,
    pub description: Option<Seq<char>>,
    pub tools: Option<Seq<char>>,
    pub color: Option<Seq<char>>,
}

impl View for RawExport {
    type V = RawExportView;

    open spec fn view(&self) -> RawExportView {
        RawExportView {
            version: self.version,
            name: opt_view(self.name),
            icon: opt_view(self.icon),
            system_prompt: opt_view(self.system_prompt),
            default_task: opt_view(self.default_task),
            model: opt_view(self.model),
            hooks: opt_view(self.hooks),
            description: opt_view(self.description),
            tools: opt_view(self.tools),
            color: opt_view(self.color),
        }
    }
}

/// What the JSON parser finds in an export envelope: `None` where the text
/// is not valid JSON, and otherwise the `version` number and the string
/// fields of the `agent` object, each absent where missing or not of the
/// expected type. The result depends on the text's characters alone.
pub uninterp spec fn export_of(s: Seq<char>) -> Option<RawExportView>;

/// Relies on `serde_json::from_str::<serde_json::Value>` and
/// `serde_json::Value::{get, as_u64, as_str}`: reads an export envelope.
#[verifier::external_body]
fn read_export(json_data: &str) -> (r: Result<RawExport, String>)
    ensures
        match r {
            Result::Ok(x) => export_of(json_data@) == Some(x@),
            Result::Err(_) => export_of(json_data@) is None,
        },
{
    let v: serde_json::Value = serde_json::from_str(json_data).map_err(|e| e.to_string())?;
    let a = v.get("agent");
    let f = |k: &str| a.and_then(|x| x.get(k)).and_then(|x| x.as_str()).map(|s| s.to_string());
    Ok(RawExport {
        version: v.get("version").and_then(|x| x.as_u64()),
        name: f("name"), icon: f("icon"), system_prompt: f("system_prompt"),
        default_task: f("default_task"), model: f("model"), hooks: f("hooks"),
        description: f("description"), tools: f("tools"), color: f("color"),
    })
}

/// The import was refused as unusable, with a message carrying the fixed
/// prefix.
pub open spec fn invalid_format(r: Result<Agent, ImportError>) -> bool {
    r matches Result::Err(e) && e matches ImportError::InvalidFormat(m) && text::match_at(
        m@,
        0,
        "Invalid JSON format: "@,
    )
}

/// Builds the rejection for an unusable envelope: the fixed prefix plus the
/// cause.
fn invalid_format_err(detail: &str) -> (r: ImportError)
    ensures
        r matches ImportError::InvalidFormat(m) && m@ == "Invalid JSON format: "@ + detail@,
        (match r {
            ImportError::InvalidFormat(m) => text::match_at(m@, 0, "Invalid JSON format: "@),
            _ => false,
        }),
{
    let mut msg = String::from_str("Invalid JSON format: ");
    text::push_str(&mut msg, detail);
    proof {
        assert(msg@.subrange(0, "Invalid JSON format: "@.len() as int) =~= "Invalid JSON format: "@);
    }
    ImportError::InvalidFormat(msg)
}

/// Some name in the list reads the same.
pub open spec fn contains_name_spec(names: Seq<Seq<char>>, x: Seq<char>) -> bool {
    exists|i: int| 0 <= i < names.len() && names[i] == x
}

/// The name an import is stored under: suffixed where it would collide.
pub open spec fn import_name(names: Seq<Seq<char>>, nm: Seq<char>) -> Seq<char> {
    if contains_name_spec(names, nm) {
        nm + " (Imported)"@
    } else {
        nm
    }
}

/// Whether `x` reads the same as some name in the list.
fn contains_name(names: &Vec<String>, x: &str) -> (r: bool)
    ensures
        r == contains_name_spec(names.deep_view(), x@),
{
    let n = names.len();
    let mut i: usize = 0;
    while i < n
        invariant
            0 <= i <= n,
            n == names.deep_view().len(),
            forall|j: int| 0 <= j < i ==> names.deep_view()[j] != x@,
        decreases n - i,
    {
        proof {
            assert(names[i as int]@ == names.deep_view()[i as int]);
        }
        if text::eq_str(names[i].as_str(), x) {
            return true;
        }
        i = i + 1;
    }
    false
}

/// The import decision on an envelope: missing structure fails.
pub open spec fn import_ok(r: Result<Agent, ImportError>, x: RawExportView, names: Seq<Seq<char>>) -> bool {
    r matches Result::Ok(a) && a.name@ == import_name(names, x.name->Some_0) && a.icon@
        == x.icon->Some_0 && a.system_prompt@ == x.system_prompt->Some_0 && a.model@
        == x.model->Some_0 && opt_view(a.default_task) == x.default_task && opt_view(a.hooks)
        == x.hooks && opt_view(a.description) == x.description && opt_view(a.tools) == x.tools
        && opt_view(a.color) == x.color && a.id is None && a.enable_file_read
        && a.enable_file_write && !a.enable_network && a.created_at@ == a.updated_at@
}

/// Decodes an export envelope into the agent to store.
///
/// The text must be a JSON envelope carrying `version` and an `agent` object
/// with at least `name`, `icon`, `system_prompt` and `model`, else
/// `InvalidFormat`. A version other than 1 is `UnsupportedVersion`. On
/// success the stored name takes a ` (Imported)` suffix exactly where it
/// already occurs among `existing_names`; permissions take the fixed
/// defaults and both timestamps one clock reading. Nothing is written here:
/// storing the result is the caller's step, so a refused version writes
/// nothing anywhere.
pub fn import_agent(json_data: &str, existing_names: &Vec<String>) -> (r: Result<
    Agent,
    ImportError,
>)
    ensures
        match export_of(json_data@) {
            Option::None => invalid_format(r),
            Option::Some(x) => {
                if x.version is None || x.name is None || x.icon is None || x.system_prompt is None
                    || x.model is None {
                    invalid_format(r)
                } else if x.version != Some(1u64) {
                    r matches Result::Err(e) && e == ImportError::UnsupportedVersion(
                        x.version->Some_0,
                    )
                } else {
                    import_ok(r, x, existing_names.deep_view())
                }
            },
        },
{
    let x = match read_export(json_data) {
        Result::Ok(x) => x,
        Result::Err(e) => {
            return Result::Err(invalid_format_err(e.as_str()));
        },
    };
    let version = match x.version {
        Option::Some(v) => v,
        Option::None => {
            return Result::Err(invalid_format_err("missing field version"));
        },
    };
    let name = match x.name {
        Option::Some(v) => v,
        Option::None => {
            return Result::Err(invalid_format_err("missing field name"));
        },
    };
    let icon = match x.icon {
        Option::Some(v) => v,
        Option::None => {
            return Result::Err(invalid_format_err("missing field icon"));
        },
    };
    let system_prompt = match x.system_prompt {
        Option::Some(v) => v,
        Option::None => {
            return Result::Err(invalid_format_err("missing field system_prompt"));
        },
    };
    let model = match x.model {
        Option::Some(v) => v,
        Option::None => {
            return Result::Err(invalid_format_err("missing field model"));
        },
    };
    if version != 1 {
        return Result::Err(ImportError::UnsupportedVersion(version));
    }
    let final_name = if contains_name(existing_names, name.as_str()) {
        let mut nm = name;
        text::push_str(&mut nm, " (Imported)");
        nm
    } else {
        name
    };
    let now = now_rfc3339();
    Result::Ok(
        Agent {
            id: Option::None,
            name: final_name,
            icon,
            system_prompt,
            default_task: x.default_task,
            model,
            enable_file_read: true,
            enable_file_write: true,
            enable_network: false,
            hooks: x.hooks,
            created_at: now.clone(),
            updated_at: now,
            description: x.description,
            tools: x.tools,
            color: x.color,
        },
    )
}

/// Builds the export envelope for an agent: version 1, stamped with one
/// clock reading, carrying the agent's fields unchanged.
pub fn export_agent(agent: Agent) -> (r: AgentExport)
    ensures
        r.version == 1u32,
        r.agent.name@ == agent.name@,
        r.agent.icon@ == agent.icon@,
        r.agent.system_prompt@ == agent.system_prompt@,
        r.agent.default_task == agent.default_task,
        r.agent.model@ == agent.model@,
        r.agent.hooks == agent.hooks,
        r.agent.description == agent.description,
        r.agent.tools == agent.tools,
        r.agent.color == agent.color,
{
    AgentExport {
        version: 1,
        exported_at: now_rfc3339(),
        agent: AgentData {
            name: agent.name,
            icon: agent.icon,
            system_prompt: agent.system_prompt,
            default_task: agent.default_task,
            model: agent.model,
            hooks: agent.hooks,
            description: agent.description,
            tools: agent.tools,
            color: agent.color,
        },
    }
}

} // verus!
