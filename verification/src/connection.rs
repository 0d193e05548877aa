//! Post-processing connection catalogue: public records and the resolution port.
//!
//! API keys never enter these records nor the configuration file; a secret
//! store keeps them per connection id, and `resolve` fills the public fields only.

use vstd::prelude::*;

use crate::text;
use crate::text::{chars_of, is_blank, owned, push_str, seq_eq};

verus! {

/// Deployment kind of a connection. Only `Remote` is implemented; `Attach`
/// and `Managed` are reserved for local servers.
#[derive(Debug, Clone, Copy, PartialEq, Eq, Structural)]
pub enum ConnectionKind {
    Remote,
    Attach,
    Managed,
}

impl ConnectionKind {
    /// The default kind (`Remote`).
    pub fn default_kind() -> (r: ConnectionKind)
        ensures
            r == ConnectionKind::Remote,
    {
        ConnectionKind::Remote
    }
}

/// A user-visible, persistable connection record. Holds no key.
#[derive(Debug, Clone, PartialEq, Eq)]
pub struct Connection {
    pub id: String,
    pub display_name: String,
    pub kind: ConnectionKind,
    /// preset id: `dashscope` / `dashscope-intl` / `groq` / `gemini` / `xai` / `openai` / `custom`
    pub provider: String,
    pub base_url: String,
    pub model: String,
}

pub open spec fn kind_label(kind: ConnectionKind) -> Seq<char> {
    match kind {
        ConnectionKind::Remote => "remote"@,
        ConnectionKind::Attach => "attach"@,
        ConnectionKind::Managed => "managed"@,
    }
}

/// The first problem of a connection record, or `None` when it is valid.
pub open spec fn validation_error(
    id: Seq<char>,
    display_name: Seq<char>,
    kind: ConnectionKind,
    base_url: Seq<char>,
    model: Seq<char>,
) -> Option<Seq<char>> {
    if text::all_ws(id) {
        Some("连接 ID 不能为空"@)
    } else if text::all_ws(display_name) {
        Some("连接名称不能为空"@)
    } else if kind != ConnectionKind::Remote {
        Some("连接类型「"@ + kind_label(kind) + "」尚未实现，当前只支持在线 remote"@)
    } else if text::all_ws(base_url) {
        Some("接口地址不能为空"@)
    } else if text::all_ws(model) {
        Some("模型名不能为空"@)
    } else {
        None
    }
}

pub fn connection_kind_label(kind: ConnectionKind) -> (r: &'static str)
    ensures
        r@ == kind_label(kind),
{
    match kind {
        ConnectionKind::Remote => "remote",
        ConnectionKind::Attach => "attach",
        ConnectionKind::Managed => "managed",
    }
}

impl Connection {
    /// Checks that the record can be used: id, name, address and model are not
    /// blank, and the kind is implemented.
    pub fn validate(&self) -> (r: Result<(), String>)
        ensures
            match validation_error(self.id@, self.display_name@, self.kind, self.base_url@, self.model@) {
                Some(m) => r is Err && r->Err_0@ == m,
                None => r is Ok,
            },
    {
        if is_blank(self.id.as_str()) {
            return Err(owned("连接 ID 不能为空"));
        }
        if is_blank(self.display_name.as_str()) {
            return Err(owned("连接名称不能为空"));
        }
        if self.kind != ConnectionKind::Remote {
            let mut m = String::new();
            push_str(&mut m, "连接类型「");
            push_str(&mut m, connection_kind_label(self.kind));
            push_str(&mut m, "」尚未实现，当前只支持在线 remote");
            return Err(m);
        }
        if is_blank(self.base_url.as_str()) {
            return Err(owned("接口地址不能为空"));
        }
        if is_blank(self.model.as_str()) {
            return Err(owned("模型名不能为空"));
        }
        Ok(())
    }
}

/// Result of `resolve`. `api_key` stays `None` until a secret store is attached.
#[derive(Debug, Clone, PartialEq, Eq)]
pub struct ResolvedConnection {
    pub id: String,
    pub display_name: String,
    pub kind: ConnectionKind,
    pub provider: String,
    pub base_url: String,
    pub model: String,
    pub api_key: Option<String>,
}

impl ResolvedConnection {
    /// Copies the public fields; the key is left empty.
    pub fn from_public(connection: &Connection) -> (r: ResolvedConnection)
        ensures
            r.id@ == connection.id@,
            r.display_name@ == connection.display_name@,
            r.kind == connection.kind,
            r.provider@ == connection.provider@,
            r.base_url@ == connection.base_url@,
            r.model@ == connection.model@,
            r.api_key is None,
    {
        ResolvedConnection {
            id: connection.id.clone(),
            display_name: connection.display_name.clone(),
            kind: connection.kind,
            provider: connection.provider.clone(),
            base_url: connection.base_url.clone(),
            model: connection.model.clone(),
            api_key: None,
        }
    }
}

/// Resolves the connection a post-processing step names by id.
pub trait ConnectionResolver {
    fn resolve(&self, connection_id: &str) -> Result<ResolvedConnection, String>;
}

/// Stores API keys per connection id; implementations must never write keys to
/// the settings or the log.
pub trait SecretStore {
    fn get(&self, connection_id: &str) -> Result<Option<String>, String>;

    fn set(&self, connection_id: &str, secret: &str) -> Result<(), String>;

    fn delete(&self, connection_id: &str) -> Result<(), String>;
}

/// Vendor preset offered when a connection is created.
#[derive(Debug, Clone, Copy)]
pub struct ConnectionProviderPreset {
    pub id: &'static str,
    pub display_name: &'static str,
    pub default_base_url: &'static str,
    pub default_model: &'static str,
    /// vendor console page where an API key is created; `None` for a custom endpoint
    pub api_key_url: Option<&'static str>,
}

/// Ids of the presets, in catalogue order.
pub open spec fn preset_ids() -> Seq<Seq<char>> {
    seq![
        "dashscope"@,
        "dashscope-intl"@,
        "groq"@,
        "gemini"@,
        "xai"@,
        "openai"@,
        "custom"@,
    ]
}

/// The preset catalogue, in display order.
pub fn connection_presets() -> (r: Vec<ConnectionProviderPreset>)
    ensures
        r@.len() == preset_ids().len(),
        forall|i: int| 0 <= i < r@.len() ==> (#[trigger] r@[i]).id@ == preset_ids()[i],
        forall|i: int| 0 <= i < r@.len() ==> ((#[trigger] r@[i]).api_key_url is None <==> i == 6),
{
    let mut v: Vec<ConnectionProviderPreset> = Vec::new();
    v.push(ConnectionProviderPreset {
        id: "dashscope",
        display_name: "通义千问（北京）",
        default_base_url: "https://dashscope.aliyuncs.com/compatible-mode/v1",
        default_model: "qwen3-30b-a3b-instruct-2507",
        api_key_url: Some("https://bailian.console.aliyun.com/?apiKey=1#/api-key"),
    });
    v.push(ConnectionProviderPreset {
        id: "dashscope-intl",
        display_name: "通义千问（国际）",
        default_base_url: "https://dashscope-intl.aliyuncs.com/compatible-mode/v1",
        default_model: "qwen3-30b-a3b-instruct-2507",
        api_key_url: Some("https://modelstudio.console.alibabacloud.com/?tab=dashboard#/api-key"),
    });
    v.push(ConnectionProviderPreset {
        id: "groq",
        display_name: "Groq",
        default_base_url: "https://api.groq.com/openai/v1",
        default_model: "llama-3.1-8b-instant",
        api_key_url: Some("https://console.groq.com/keys"),
    });
    v.push(ConnectionProviderPreset {
        id: "gemini",
        display_name: "Gemini",
        default_base_url: "https://generativelanguage.googleapis.com/v1beta/openai/",
        default_model: "gemini-2.5-flash-lite",
        api_key_url: Some("https://aistudio.google.com/apikey"),
    });
    v.push(ConnectionProviderPreset {
        id: "xai",
        display_name: "xAI Grok",
        default_base_url: "https://api.x.ai/v1",
        default_model: "grok-4-fast",
        api_key_url: Some("https://console.x.ai/"),
    });
    v.push(ConnectionProviderPreset {
        id: "openai",
        display_name: "OpenAI",
        default_base_url: "https://api.openai.com/v1",
        default_model: "gpt-4.1-mini",
        api_key_url: Some("https://platform.openai.com/api-keys"),
    });
    v.push(ConnectionProviderPreset {
        id: "custom",
        display_name: "自定义 OpenAI 兼容",
        default_base_url: "",
        default_model: "",
        api_key_url: None,
    });
    v
}

/// The first preset whose id equals `id`.
pub fn preset_by_id(id: &str) -> (r: Option<ConnectionProviderPreset>)
    ensures
        match r {
            Some(p) => p.id@ == id@ && exists|i: int|
                0 <= i < preset_ids().len() && preset_ids()[i] == id@ && forall|j: int|
                    0 <= j < i ==> preset_ids()[j] != id@,
            None => forall|i: int| 0 <= i < preset_ids().len() ==> preset_ids()[i] != id@,
        },
{
    let presets = connection_presets();
    let target = chars_of(id);
    let mut i: usize = 0;
    while i < presets.len()
        invariant
            i <= presets.len(),
            presets@.len() == preset_ids().len(),
            forall|k: int| 0 <= k < presets@.len() ==> (#[trigger] presets@[k]).id@ == preset_ids()[k],
            target@ == id@,
            forall|j: int| 0 <= j < i ==> preset_ids()[j] != id@,
        decreases presets.len() - i,
    {
        let p = presets[i];
        let pid = chars_of(p.id);
        if seq_eq(pid.as_slice(), target.as_slice()) {
            assert(preset_ids()[i as int] == id@);
            return Some(p);
        }
        i += 1;
    }
    None
}

} // verus!
