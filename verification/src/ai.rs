//! AI backends' settings and conversations, and the local model's devices.

use vstd::prelude::*;

use crate::ai_config::{ClaudeConfig, LmStudioConfig, LocalModelConfig, OpenAiConfig};

verus! {

/// Role in an AI conversation.
#[derive(Debug, Clone, Copy, PartialEq, Eq, Structural)]
pub enum AiRole {
    System,
    User,
    Assistant,
}

/// A message in an AI conversation.
#[derive(Debug, Clone)]
pub struct AiMessage {
    pub role: AiRole,
    pub content: String,
}

/// Response from an AI backend.
#[derive(Debug, Clone)]
pub struct CompletionResponse {
    pub choices: Vec<String>,
    pub model: String,
}

/// LM Studio backend using OpenAI-compatible API.
pub struct LmStudioBackend {
    pub base_url: String,
    pub api_key: String,
    pub model: String,
    pub timeout_secs: u64,
}

impl LmStudioBackend {
    pub fn new(base_url: String, api_key: String, model: String, timeout_secs: u64) -> (r: Self)
        ensures
            r.base_url@ == base_url@,
            r.api_key@ == api_key@,
            r.model@ == model@,
            r.timeout_secs == timeout_secs,
    {
        LmStudioBackend { base_url, api_key, model, timeout_secs }
    }

    pub fn from_config(config: &LmStudioConfig) -> (r: Self)
        ensures
            r.base_url@ == config.base_url@,
            r.api_key@ == config.api_key@,
            r.model@ == config.model@,
            r.timeout_secs == config.timeout_secs,
    {
        Self::new(
            config.base_url.clone(),
            config.api_key.clone(),
            config.model.clone(),
            config.timeout_secs,
        )
    }

    /// Human-readable name of this backend.
    pub fn name(&self) -> (r: &str)
        ensures
            r@ == "LM Studio"@,
    {
        "LM Studio"
    }

    /// Available when a server address is set.
    pub fn is_available(&self) -> (r: bool)
        ensures
            r == (self.base_url@.len() > 0),
    {
        self.base_url.as_str().unicode_len() > 0
    }
}

/// OpenAI API backend (GPT-4o, GPT-4, etc.).
pub struct OpenAiBackend {
    pub api_key: String,
    pub model: String,
    pub timeout_secs: u64,
}

impl OpenAiBackend {
    pub fn new(api_key: String, model: String, timeout_secs: u64) -> (r: Self)
        ensures
            r.api_key@ == api_key@,
            r.model@ == model@,
            r.timeout_secs == timeout_secs,
    {
        OpenAiBackend { api_key, model, timeout_secs }
    }

    pub fn from_config(config: &OpenAiConfig) -> (r: Self)
        ensures
            r.api_key@ == config.api_key@,
            r.model@ == config.model@,
            r.timeout_secs == config.timeout_secs,
    {
        Self::new(config.api_key.clone(), config.model.clone(), config.timeout_secs)
    }

    /// Human-readable name of this backend.
    pub fn name(&self) -> (r: &str)
        ensures
            r@ == "OpenAI"@,
    {
        "OpenAI"
    }

    /// Available when an API key is set.
    pub fn is_available(&self) -> (r: bool)
        ensures
            r == (self.api_key@.len() > 0),
    {
        self.api_key.as_str().unicode_len() > 0
    }
}

/// Anthropic Messages API backend.
pub struct ClaudeBackend {
    pub api_key: String,
    pub model: String,
    pub max_tokens: u32,
}

impl ClaudeBackend {
    pub fn new(api_key: String, model: String, max_tokens: u32) -> (r: Self)
        ensures
            r.api_key@ == api_key@,
            r.model@ == model@,
            r.max_tokens == max_tokens,
    {
        ClaudeBackend { api_key, model, max_tokens }
    }

    pub fn from_config(config: &ClaudeConfig) -> (r: Self)
        ensures
            r.api_key@ == config.api_key@,
            r.model@ == config.model@,
            r.max_tokens == config.max_tokens,
    {
        Self::new(config.api_key.clone(), config.model.clone(), config.max_tokens)
    }

    /// Available when an API key is set.
    pub fn is_available(&self) -> (r: bool)
        ensures
            r == (self.api_key@.len() > 0),
    {
        self.api_key.as_str().unicode_len() > 0
    }

    /// The token limit of a request: the request's own when it sets one, else the
    /// backend's.
    pub fn request_max_tokens(&self, requested: u32) -> (r: u32)
        ensures
            r == (if requested > 0 {
                requested
            } else {
                self.max_tokens
            }),
    {
        if requested > 0 {
            requested
        } else {
            self.max_tokens
        }
    }

    /// How a conversation is sent to the Messages API: the first system message
    /// becomes the separate system prompt, and the other messages keep their order,
    /// each with its role's name.
    pub fn api_messages(messages: &[AiMessage]) -> (r: (Option<String>, Vec<(&'static str, String)>))
        ensures
            r.0 matches Some(s) ==> exists|i: int|
                0 <= i < messages@.len() && messages@[i].role == AiRole::System
                    && messages@[i].content@ == s@ && forall|j: int|
                    0 <= j < i ==> messages@[j].role != AiRole::System,
            r.0 is None ==> forall|j: int|
                0 <= j < messages@.len() ==> messages@[j].role != AiRole::System,
            api_views(r.1@) == conversation(messages@),
    {
        let mut system: Option<String> = None;
        let mut out: Vec<(&'static str, String)> = Vec::new();
        let mut i: usize = 0;
        while i < messages.len()
            invariant
                i <= messages@.len(),
                system matches Some(s) ==> exists|k: int|
                    0 <= k < i && messages@[k].role == AiRole::System && messages@[k].content@
                        == s@ && forall|j: int| 0 <= j < k ==> messages@[j].role != AiRole::System,
                system is None ==> forall|j: int| 0 <= j < i ==> messages@[j].role != AiRole::System,
                api_views(out@) == conversation(messages@.subrange(0, i as int)),
            decreases messages@.len() - i,
        {
            let m = &messages[i];
            let ghost before = out@;
            assert(messages@.subrange(0, i + 1).drop_last() =~= messages@.subrange(0, i as int));
            match m.role {
                AiRole::System => {
                    if system.is_none() {
                        system = Some(m.content.clone());
                    }
                },
                AiRole::User => {
                    out.push(("user", m.content.clone()));
                    assert(api_views(out@) =~= api_views(before).push(("user"@, m.content@)));
                },
                AiRole::Assistant => {
                    out.push(("assistant", m.content.clone()));
                    assert(api_views(out@) =~= api_views(before).push(("assistant"@, m.content@)));
                },
            }
            i += 1;
        }
        assert(messages@.subrange(0, messages@.len() as int) =~= messages@);
        (system, out)
    }
}

/// The role names and contents of the sent messages.
pub open spec fn api_views(v: Seq<(&'static str, String)>) -> Seq<(Seq<char>, Seq<char>)> {
    v.map_values(|m: (&'static str, String)| (m.0@, m.1@))
}

/// The messages other than system ones, in order, with their role's name.
pub open spec fn conversation(ms: Seq<AiMessage>) -> Seq<(Seq<char>, Seq<char>)>
    decreases ms.len(),
{
    if ms.len() == 0 {
        Seq::empty()
    } else {
        let m = ms.last();
        let rest = conversation(ms.drop_last());
        match m.role {
            AiRole::System => rest,
            AiRole::User => rest.push(("user"@, m.content@)),
            AiRole::Assistant => rest.push(("assistant"@, m.content@)),
        }
    }
}

/// Local model backend for self-hosted LLMs (Ollama, llama.cpp server, etc.).
///
/// Communicates via the OpenAI-compatible API that local model servers expose.
pub struct LocalModelBackend {
    pub model_repo: String,
    pub quantization: String,
    pub device: String,
    pub context_length: u32,
    /// Base URL for the local inference server (defaults to Ollama).
    pub base_url: String,
}

impl LocalModelBackend {
    pub fn from_config(config: &LocalModelConfig) -> (r: Self)
        ensures
            r.model_repo@ == config.model_repo@,
            r.quantization@ == config.quantization@,
            r.device@ == config.device@,
            r.context_length == config.context_length,
            r.base_url@ == "http://localhost:11434/v1"@,
    {
        LocalModelBackend {
            model_repo: config.model_repo.clone(),
            quantization: config.quantization.clone(),
            device: config.device.clone(),
            context_length: config.context_length,
            base_url: "http://localhost:11434/v1".to_owned(),
        }
    }

    /// Human-readable name of this backend.
    pub fn name(&self) -> (r: &str)
        ensures
            r@ == "Local Model"@,
    {
        "Local Model"
    }

    /// Available when a model repository is set.
    pub fn is_available(&self) -> (r: bool)
        ensures
            r == (self.model_repo@.len() > 0),
    {
        self.model_repo.as_str().unicode_len() > 0
    }
}

/// High-level status of the local model.
#[derive(Debug, Clone)]
pub enum LocalModelStatus {
    /// No model files found on disk.
    NotDownloaded,
    /// Download is in progress.
    Downloading { downloaded_bytes: u64, total_bytes: u64 },
    /// Model files exist on disk.
    Downloaded {
        /// ISO-8601 timestamp of when the download completed.
        date: String,
        /// Total size of model files in bytes.
        size_bytes: u64,
    },
    /// Model is being loaded (between Start click and Running).
    Starting,
    /// Model is loaded and ready for inference.
    Running,
    /// Something went wrong.
    Error(String),
}

/// Metadata written alongside model files.
#[derive(Debug, Clone)]
pub struct ModelMeta {
    pub huggingface_url: String,
    pub downloaded_at: String,
    pub total_bytes: u64,
    pub files: Vec<String>,
}

/// A compute device the local model can run on.
#[derive(Debug, Clone)]
pub struct DeviceInfo {
    pub id: String,
    pub label: String,
    pub recommended: bool,
}

/// The id, label and recommendation of each device.
pub open spec fn device_views(v: Seq<DeviceInfo>) -> Seq<(Seq<char>, Seq<char>, bool)> {
    v.map_values(|d: DeviceInfo| (d.id@, d.label@, d.recommended))
}

/// The devices offered: the CPU, then the Metal GPU where the build has one, then
/// the CUDA GPU where the build has one; the GPUs are recommended, and the CPU is
/// when no GPU is.
pub open spec fn device_list(has_metal: bool, has_cuda: bool) -> Seq<(Seq<char>, Seq<char>, bool)> {
    let cpu = seq![("cpu"@, "CPU"@, !has_metal && !has_cuda)];
    let with_metal = if has_metal {
        cpu.push(("metal"@, "Metal GPU"@, true))
    } else {
        cpu
    };
    if has_cuda {
        with_metal.push(("cuda"@, "CUDA GPU"@, true))
    } else {
        with_metal
    }
}

/// The devices available to a build with or without Metal and CUDA support (both
/// are fixed when the application is compiled, and it passes them in).
pub fn detect_devices(has_metal: bool, has_cuda: bool) -> (r: Vec<DeviceInfo>)
    ensures
        device_views(r@) == device_list(has_metal, has_cuda),
{
    let mut devices: Vec<DeviceInfo> = Vec::new();
    devices.push(DeviceInfo { id: "cpu".to_owned(), label: "CPU".to_owned(), recommended: false });
    if has_metal {
        devices.push(
            DeviceInfo { id: "metal".to_owned(), label: "Metal GPU".to_owned(), recommended: true },
        );
    }
    if has_cuda {
        devices.push(
            DeviceInfo { id: "cuda".to_owned(), label: "CUDA GPU".to_owned(), recommended: true },
        );
    }
    let mut any = false;
    let mut i: usize = 0;
    while i < devices.len()
        invariant
            i <= devices@.len(),
            devices@.len() == 1 + (if has_metal {
                1int
            } else {
                0
            }) + (if has_cuda {
                1int
            } else {
                0
            }),
            any == exists|k: int| 0 <= k < i && devices@[k].recommended,
            devices@[0].recommended == false,
            has_metal ==> devices@[1].recommended,
            has_cuda ==> devices@[devices@.len() - 1].recommended,
            !has_metal && !has_cuda ==> devices@.len() == 1,
        decreases devices@.len() - i,
    {
        if devices[i].recommended {
            any = true;
        }
        i += 1;
    }
    let ghost before = devices@;
    if !any {
        let mut cpu = devices.remove(0);
        cpu.recommended = true;
        devices.insert(0, cpu);
    }
    proof {
        if has_metal {
            assert(devices@[1].recommended);
        }
    }
    assert(device_views(devices@) =~= device_list(has_metal, has_cuda));
    devices
}

/// Returns the best device id ("metal", "cuda", or "cpu"): the first recommended
/// device, else the CPU.
pub fn best_device_id(has_metal: bool, has_cuda: bool) -> (r: String)
    ensures
        r@ == (if has_metal {
            "metal"@
        } else if has_cuda {
            "cuda"@
        } else {
            "cpu"@
        }),
{
    let devices = detect_devices(has_metal, has_cuda);
    let mut i: usize = 0;
    while i < devices.len()
        invariant
            i <= devices@.len(),
            device_views(devices@) == device_list(has_metal, has_cuda),
            forall|k: int| 0 <= k < i ==> !devices@[k].recommended,
        decreases devices@.len() - i,
    {
        let ghost l = device_list(has_metal, has_cuda);
        assert(device_views(devices@)[i as int] == l[i as int]);
        if devices[i].recommended {
            proof {
                assert(device_views(devices@)[0] == l[0]);
                if i >= 2 {
                    assert(device_views(devices@)[1] == l[1]);
                }
            }
            return devices[i].id.clone();
        }
        i += 1;
    }
    proof {
        let l = device_list(has_metal, has_cuda);
        assert(device_views(devices@)[0] == l[0]);
        if l.len() > 1 {
            assert(device_views(devices@)[1] == l[1]);
        }
    }
    "cpu".to_owned()
}

} // verus!
