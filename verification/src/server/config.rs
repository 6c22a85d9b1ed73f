use vstd::prelude::*;
use vstd::string::*;

verus! {

/// Speech synthesis engines.
#[derive(Clone, Copy, Debug, PartialEq, Eq, Structural, Default)]
pub enum TtsModel {
    #[default]
    Kokoro,
    Voxcpm,
}

/// Language models.
#[derive(Clone, Copy, Debug, PartialEq, Eq, Structural, Default)]
pub enum LlmModel {
    #[default]
    Qwen3,
    MiniCPM4,
}

/// Speech recognition settings.
#[derive(Debug, Clone, Default)]
pub struct AsrConfig {
    pub path: Option<String>,
}

/// Audio framing on both directions of a session.
#[derive(Debug, Clone)]
pub struct AudioConfig {
    pub input_sample_rate: Option<u32>,
    /// unit: ms
    pub input_frame_duration: Option<u64>,
    pub input_channel: Option<u32>,
    pub output_sample_rate: Option<u32>,
    pub output_channel: Option<u32>,
    /// unit: ms
    pub output_frame_duration: Option<u64>,
}

/// Language model settings.
#[derive(Debug, Clone, Default)]
pub struct LlmConfig {
    pub model: Option<LlmModel>,
    pub path: Option<String>,
}

/// Conversation rules of a session.
#[derive(Debug, Clone)]
pub struct LogicConfig {
    /// unit: ms
    pub close_connection_no_voice_time: Option<i64>,
    /// unit: ms
    pub silence_voice_timeout: Option<i64>,
    pub system_prompt: Option<String>,
    pub max_prompt_len: Option<u64>,
}

/// Matrix chat bridge settings.
#[derive(Debug, Default, Clone)]
pub struct MatrixConfig {
    pub enable: Option<bool>,
    pub client_name: Option<String>,
    pub homeserver: Option<String>,
    pub client_username: Option<String>,
    pub client_password: Option<String>,
}

/// MCP servers to attach.
#[derive(Debug, Clone)]
pub struct McpConfig {
    pub uri_list: Option<Vec<String>>,
}

/// Voice activity detection settings.
#[derive(Debug, Clone, Default)]
pub struct VadConfig {
    pub variant: Option<String>,
    pub path: Option<String>,
    pub num_threads: Option<i32>,
}

/// WebSocket endpoint settings.
#[derive(Debug, Clone, Default)]
pub struct WsConfig {
    pub schema: Option<String>,
}

/// The speech engines a [`TtsConfig`] can name.
#[derive(Clone, Copy, Debug, PartialEq, Eq, Structural, Default)]
pub enum Model {
    #[default]
    Kokoro,
    Voxcpm,
}

/// Speech synthesis settings: the engine, its model files and the reference
/// recording (with its transcript) that voice cloning starts from.
#[derive(Debug, Default, Clone)]
pub struct TtsConfig {
    model: Option<Model>,
    path: Option<String>,
    reference_prompt_text: Option<String>,
    reference_prompt_wav_path: Option<String>,
}

/// The text of an optional setting, empty when it is unset.
pub open spec fn text_or_empty(s: Option<Seq<char>>) -> Seq<char> {
    match s {
        Some(t) => t,
        None => Seq::empty(),
    }
}

/// An optional string setting as text.
pub open spec fn setting_text(s: Option<String>) -> Option<Seq<char>> {
    match s {
        Some(t) => Some(t@),
        None => None,
    }
}

/// The text of an optional string setting, `""` when unset.
fn str_or_empty(s: &Option<String>) -> (r: &str)
    ensures
        r@ == text_or_empty(setting_text(*s)),
{
    proof {
        reveal_strlit("");
    }
    match s {
        Some(t) => t.as_str(),
        None => "",
    }
}

impl TtsConfig {
    /// The configured engine, if any.
    pub closed spec fn model_of(&self) -> Option<Model> {
        self.model
    }

    /// The configured model path, if any.
    pub closed spec fn path_of(&self) -> Option<Seq<char>> {
        setting_text(self.path)
    }

    /// The transcript of the reference recording, if any.
    pub closed spec fn reference_prompt_text_of(&self) -> Option<Seq<char>> {
        setting_text(self.reference_prompt_text)
    }

    /// Where the reference recording lives, if set.
    pub closed spec fn reference_prompt_wav_path_of(&self) -> Option<Seq<char>> {
        setting_text(self.reference_prompt_wav_path)
    }

    /// VoxCPM with its bundled model and reference recording.
    pub fn new() -> (r: Self)
        ensures
            r.model_of() == Some(Model::Voxcpm),
            r.path_of() == Some("data/tts/model/openbmb/VoxCPM-0.5B/"@),
            r.reference_prompt_text_of() == Some("一定被灰太狼给吃了，我已经为他准备好了花圈了"@),
            r.reference_prompt_wav_path_of() == Some("file://data/tts/reference/voice_05.wav"@),
    {
        Self {
            model: Some(Model::Voxcpm),
            path: Some(String::from_str("data/tts/model/openbmb/VoxCPM-0.5B/")),
            reference_prompt_text: Some(
                String::from_str("一定被灰太狼给吃了，我已经为他准备好了花圈了"),
            ),
            reference_prompt_wav_path: Some(String::from_str("file://data/tts/reference/voice_05.wav")),
        }
    }

    /// The model path, empty when unset.
    pub fn path(&self) -> (r: &str)
        ensures
            r@ == text_or_empty(self.path_of()),
    {
        str_or_empty(&self.path)
    }

    /// The engine, Kokoro when unset.
    pub fn model(&self) -> (r: Model)
        ensures
            r == (match self.model_of() {
                Some(m) => m,
                None => Model::Kokoro,
            }),
    {
        match self.model {
            Some(m) => m,
            None => Model::Kokoro,
        }
    }

    /// The transcript of the reference recording, empty when unset.
    pub fn reference_prompt_text(&self) -> (r: &str)
        ensures
            r@ == text_or_empty(self.reference_prompt_text_of()),
    {
        str_or_empty(&self.reference_prompt_text)
    }

    /// Where the reference recording lives, empty when unset.
    pub fn reference_prompt_wav_path(&self) -> (r: &str)
        ensures
            r@ == text_or_empty(self.reference_prompt_wav_path_of()),
    {
        str_or_empty(&self.reference_prompt_wav_path)
    }
}

/// Default of `server_name`: `localhost.localdomain`.
pub fn default_server_name() -> (r: String)
    ensures
        r@ == "localhost.localdomain"@,
{
    String::from_str("localhost.localdomain")
}

/// Default of `database_url`: `sqlite://db.sqlite?mode=rwc`.
pub fn default_database_url() -> (r: Option<String>)
    ensures
        r matches Some(s) && s@ == "sqlite://db.sqlite?mode=rwc"@,
{
    Some(String::from_str("sqlite://db.sqlite?mode=rwc"))
}

/// Default of `auth_access_token_secret`: `QLjJTeVblAlM47de`.
pub fn default_auth_access_token_secret() -> (r: Option<String>)
    ensures
        r matches Some(s) && s@ == "QLjJTeVblAlM47de"@,
{
    Some(String::from_str("QLjJTeVblAlM47de"))
}

/// Default of `auth_access_token_expires_in`: `28800`.
pub fn default_auth_access_token_expires_in() -> (r: Option<u64>)
    ensures
        r == Some(28800u64),
{
    Some(28800)
}

/// Default of `auth_refresh_token_secret`: `N8lI0uitNzJl6vYK`.
pub fn default_auth_refresh_token_secret() -> (r: Option<String>)
    ensures
        r matches Some(s) && s@ == "N8lI0uitNzJl6vYK"@,
{
    Some(String::from_str("N8lI0uitNzJl6vYK"))
}

/// Default of `auth_refresh_token_expires_in`: `15897600`.
pub fn default_auth_refresh_token_expires_in() -> (r: Option<u64>)
    ensures
        r == Some(15897600u64),
{
    Some(15897600)
}

/// Default of `auth_audience`: `audience`.
pub fn default_auth_audience() -> (r: Option<String>)
    ensures
        r matches Some(s) && s@ == "audience"@,
{
    Some(String::from_str("audience"))
}

/// Default of `auth_issuer`: `issuer`.
pub fn default_auth_issuer() -> (r: Option<String>)
    ensures
        r matches Some(s) && s@ == "issuer"@,
{
    Some(String::from_str("issuer"))
}

/// Default of `auth_client_id`: `d1aicsr57dijo7h963ig`.
pub fn default_auth_client_id() -> (r: Option<String>)
    ensures
        r matches Some(s) && s@ == "d1aicsr57dijo7h963ig"@,
{
    Some(String::from_str("d1aicsr57dijo7h963ig"))
}

/// Default of `auth_client_secret`: `ujTgh2lEQYy0PXhK`.
pub fn default_auth_client_secret() -> (r: Option<String>)
    ensures
        r matches Some(s) && s@ == "ujTgh2lEQYy0PXhK"@,
{
    Some(String::from_str("ujTgh2lEQYy0PXhK"))
}

/// Default of `tts_model`: `TtsModel::Voxcpm`.
pub fn default_tts_model() -> (r: Option<TtsModel>)
    ensures
        r == Some(TtsModel::Voxcpm),
{
    Some(TtsModel::Voxcpm)
}

/// Default of `tts_path`: `data/tts/model/openbmb/VoxCPM-0.5B/`.
pub fn default_tts_path() -> (r: Option<String>)
    ensures
        r matches Some(s) && s@ == "data/tts/model/openbmb/VoxCPM-0.5B/"@,
{
    Some(String::from_str("data/tts/model/openbmb/VoxCPM-0.5B/"))
}

/// Default of `tts_reference_prompt_text`: `一定被灰太狼给吃了，我已经为他准备好了花圈了`.
pub fn default_tts_reference_prompt_text() -> (r: Option<String>)
    ensures
        r matches Some(s) && s@ == "一定被灰太狼给吃了，我已经为他准备好了花圈了"@,
{
    Some(String::from_str("一定被灰太狼给吃了，我已经为他准备好了花圈了"))
}

/// Default of `tts_reference_prompt_wav_path`: `file://data/tts/reference/voice_05.wav`.
pub fn default_tts_reference_prompt_wav_path() -> (r: Option<String>)
    ensures
        r matches Some(s) && s@ == "file://data/tts/reference/voice_05.wav"@,
{
    Some(String::from_str("file://data/tts/reference/voice_05.wav"))
}

/// Default of `asr_path`: `data/asr/model/openai/whisper-small/`.
pub fn default_asr_path() -> (r: Option<String>)
    ensures
        r matches Some(s) && s@ == "data/asr/model/openai/whisper-small/"@,
{
    Some(String::from_str("data/asr/model/openai/whisper-small/"))
}

/// Default of `llm_model`: `LlmModel::Qwen3`.
pub fn default_llm_model() -> (r: Option<LlmModel>)
    ensures
        r == Some(LlmModel::Qwen3),
{
    Some(LlmModel::Qwen3)
}

/// Default of `llm_path`: `data/llm/model/unsloth/Qwen3-1.7B-GGUF/`.
pub fn default_llm_path() -> (r: Option<String>)
    ensures
        r matches Some(s) && s@ == "data/llm/model/unsloth/Qwen3-1.7B-GGUF/"@,
{
    Some(String::from_str("data/llm/model/unsloth/Qwen3-1.7B-GGUF/"))
}

/// Default of `audio_input_sample_rate`: `16000`.
pub fn default_audio_input_sample_rate() -> (r: Option<u32>)
    ensures
        r == Some(16000u32),
{
    Some(16000)
}

/// Default of `audio_input_frame_duration`: `60`.
pub fn default_audio_input_frame_duration() -> (r: Option<u64>)
    ensures
        r == Some(60u64),
{
    Some(60)
}

/// Default of `audio_input_channel`: `1`.
pub fn default_audio_input_channel() -> (r: Option<u32>)
    ensures
        r == Some(1u32),
{
    Some(1)
}

/// Default of `audio_output_sample_rate`: `16000`.
pub fn default_audio_output_sample_rate() -> (r: Option<u32>)
    ensures
        r == Some(16000u32),
{
    Some(16000)
}

/// Default of `audio_output_channel`: `1`.
pub fn default_audio_output_channel() -> (r: Option<u32>)
    ensures
        r == Some(1u32),
{
    Some(1)
}

/// Default of `audio_output_frame_duration`: `60`.
pub fn default_audio_output_frame_duration() -> (r: Option<u64>)
    ensures
        r == Some(60u64),
{
    Some(60)
}

/// Default of `session_close_connection_no_voice_time`: `30000`.
pub fn default_session_close_connection_no_voice_time() -> (r: Option<i64>)
    ensures
        r == Some(30000i64),
{
    Some(30000)
}

/// Default of `session_silence_voice_timeout`: `1200`.
pub fn default_session_silence_voice_timeout() -> (r: Option<i64>)
    ensures
        r == Some(1200i64),
{
    Some(1200)
}

/// Default of `session_system_prompt`: `你是一个助手，所有回答必须使用纯文本自然语言，禁止使用任何Markdown符号如#、-、*等。`.
pub fn default_session_system_prompt() -> (r: Option<String>)
    ensures
        r matches Some(s) && s@ == "你是一个助手，所有回答必须使用纯文本自然语言，禁止使用任何Markdown符号如#、-、*等。"@,
{
    Some(String::from_str("你是一个助手，所有回答必须使用纯文本自然语言，禁止使用任何Markdown符号如#、-、*等。"))
}

/// Default of `session_max_prompt_len`: `3000`.
pub fn default_session_max_prompt_len() -> (r: Option<u64>)
    ensures
        r == Some(3000u64),
{
    Some(3000)
}

/// Default of `mcp_uri_list`: the single endpoint `http://127.0.0.1:3000/mcp`.
pub fn default_mcp_uri_list() -> (r: Option<Vec<String>>)
    ensures
        r matches Some(list) && list@.len() == 1 && list@[0]@ == "http://127.0.0.1:3000/mcp"@,
{
    Some(vec![String::from_str("http://127.0.0.1:3000/mcp")])
}

/// Default of `ws_schema`: `ws`.
pub fn default_ws_schema() -> (r: Option<String>)
    ensures
        r matches Some(s) && s@ == "ws"@,
{
    Some(String::from_str("ws"))
}

/// Default of `vad_path`: `data/vad/model/onnx-community/silero-vad/`.
pub fn default_vad_path() -> (r: Option<String>)
    ensures
        r matches Some(s) && s@ == "data/vad/model/onnx-community/silero-vad/"@,
{
    Some(String::from_str("data/vad/model/onnx-community/silero-vad/"))
}

/// Default of `vad_num_threads`: `4`.
pub fn default_vad_num_threads() -> (r: Option<i32>)
    ensures
        r == Some(4i32),
{
    Some(4)
}

/// Default of `matrix_enable`: `false`.
pub fn default_matrix_enable() -> (r: Option<bool>)
    ensures
        r == Some(false),
{
    Some(false)
}

/// Default of `matrix_client_name`: `chobits`.
pub fn default_matrix_client_name() -> (r: Option<String>)
    ensures
        r matches Some(s) && s@ == "chobits"@,
{
    Some(String::from_str("chobits"))
}

/// Default of `matrix_homeserver`: `http://127.0.0.1:8008`.
pub fn default_matrix_homeserver() -> (r: Option<String>)
    ensures
        r matches Some(s) && s@ == "http://127.0.0.1:8008"@,
{
    Some(String::from_str("http://127.0.0.1:8008"))
}

/// Default of `matrix_client_username`: `@chobits:localhost.localdomain`.
pub fn default_matrix_client_username() -> (r: Option<String>)
    ensures
        r matches Some(s) && s@ == "@chobits:localhost.localdomain"@,
{
    Some(String::from_str("@chobits:localhost.localdomain"))
}

/// Default of `matrix_client_password`: unset.
pub fn default_matrix_client_password() -> (r: Option<String>)
    ensures
        r is None,
{
    None
}

/// A host address to listen on: IPv4 octets or IPv6 segments.
#[derive(Debug, Clone, Copy, PartialEq, Eq)]
pub enum HostAddr {
    V4([u8; 4]),
    V6([u16; 8]),
}

/// A setting given either as one value or as a list.
#[derive(Debug, Clone)]
pub enum OneOrMany<T> {
    One(T),
    Many(Vec<T>),
}

/// The values a setting names, in order.
pub open spec fn listed<T>(v: OneOrMany<T>) -> Seq<T> {
    match v {
        OneOrMany::One(x) => seq![x],
        OneOrMany::Many(xs) => xs@,
    }
}

fn listed_values<T: Copy>(v: &OneOrMany<T>) -> (r: Vec<T>)
    ensures
        r@ == listed(*v),
{
    match v {
        OneOrMany::One(x) => {
            let mut r = Vec::new();
            r.push(*x);
            assert(r@ =~= seq![*x]);
            r
        },
        OneOrMany::Many(xs) => {
            let mut r: Vec<T> = Vec::new();
            let mut i: usize = 0;
            while i < xs.len()
                invariant
                    0 <= i <= xs@.len(),
                    r@ == xs@.take(i as int),
                decreases xs@.len() - i,
            {
                r.push(xs[i]);
                assert(xs@.take(i + 1) =~= xs@.take(i as int).push(xs@[i as int]));
                i = i + 1;
            }
            assert(xs@.take(xs@.len() as int) =~= xs@);
            r
        },
    }
}

/// The port(s) to listen on.
#[derive(Debug, Clone)]
pub struct ListeningPort {
    pub ports: OneOrMany<u16>,
}

/// The address(es) to listen on.
#[derive(Debug, Clone)]
pub struct ListeningAddr {
    pub addrs: OneOrMany<HostAddr>,
}

/// A socket address: a host and a port.
#[derive(Debug, Clone, Copy, PartialEq, Eq)]
pub struct BindAddr {
    pub host: HostAddr,
    pub port: u16,
}

/// Every host paired with every port: host by host, and for each host the
/// ports in order.
pub open spec fn bind_pairs(hosts: Seq<HostAddr>, ports: Seq<u16>) -> Seq<BindAddr>
    decreases hosts.len(),
{
    if hosts.len() == 0 {
        Seq::empty()
    } else {
        bind_pairs(hosts.drop_last(), ports) + ports.map_values(
            |p: u16| BindAddr { host: hosts.last(), port: p },
        )
    }
}

/// Default of `address`: `127.0.0.1`.
pub fn default_address() -> (r: ListeningAddr)
    ensures
        listed(r.addrs) == seq![HostAddr::V4([127u8, 0u8, 0u8, 1u8])],
{
    let r = ListeningAddr { addrs: OneOrMany::One(HostAddr::V4([127, 0, 0, 1])) };
    assert(listed(r.addrs) =~= seq![HostAddr::V4([127u8, 0u8, 0u8, 1u8])]);
    r
}

/// Default of `port`: `3000`.
pub fn default_port() -> (r: ListeningPort)
    ensures
        listed(r.ports) == seq![3000u16],
{
    ListeningPort { ports: OneOrMany::One(3000) }
}

/// All the settings of the server; unset ones take the `default_*` values.
pub struct Config {
    pub server_name: String,
    pub address: ListeningAddr,
    pub port: ListeningPort,
    pub database_url: Option<String>,
    pub auth_access_token_secret: Option<String>,
    pub auth_access_token_expires_in: Option<u64>,
    pub auth_refresh_token_secret: Option<String>,
    pub auth_refresh_token_expires_in: Option<u64>,
    pub auth_audience: Option<String>,
    pub auth_issuer: Option<String>,
    pub auth_client_id: Option<String>,
    pub auth_client_secret: Option<String>,
    pub ws_schema: Option<String>,
    pub vad_path: Option<String>,
    pub vad_num_threads: Option<i32>,
    pub tts_model: Option<TtsModel>,
    pub tts_path: Option<String>,
    pub tts_reference_prompt_text: Option<String>,
    pub tts_reference_prompt_wav_path: Option<String>,
    pub asr_path: Option<String>,
    pub llm_model: Option<LlmModel>,
    pub llm_path: Option<String>,
    pub audio_input_sample_rate: Option<u32>,
    pub audio_input_frame_duration: Option<u64>,
    pub audio_input_channel: Option<u32>,
    pub audio_output_sample_rate: Option<u32>,
    pub audio_output_channel: Option<u32>,
    pub audio_output_frame_duration: Option<u64>,
    pub session_close_connection_no_voice_time: Option<i64>,
    pub session_silence_voice_timeout: Option<i64>,
    pub session_system_prompt: Option<String>,
    pub session_max_prompt_len: Option<u64>,
    pub mcp_uri_list: Option<Vec<String>>,
    pub matrix_enable: Option<bool>,
    pub matrix_client_name: Option<String>,
    pub matrix_homeserver: Option<String>,
    pub matrix_client_username: Option<String>,
    pub matrix_client_password: Option<String>,
}

impl Config {
    /// Every address the server listens on: each configured host on each
    /// configured port.
    pub fn get_bind_addrs(&self) -> (r: Vec<BindAddr>)
        ensures
            r@ == bind_pairs(listed(self.address.addrs), listed(self.port.ports)),
    {
        let hosts = self.get_bind_hosts();
        let ports = self.get_bind_ports();
        let mut addrs: Vec<BindAddr> = Vec::new();
        let mut i: usize = 0;
        while i < hosts.len()
            invariant
                0 <= i <= hosts@.len(),
                hosts@ == listed(self.address.addrs),
                ports@ == listed(self.port.ports),
                addrs@ == bind_pairs(hosts@.take(i as int), ports@),
            decreases hosts@.len() - i,
        {
            let host = hosts[i];
            let ghost before = addrs@;
            let mut j: usize = 0;
            while j < ports.len()
                invariant
                    0 <= j <= ports@.len(),
                    addrs@ == before + ports@.take(j as int).map_values(
                        |p: u16| BindAddr { host, port: p },
                    ),
                decreases ports@.len() - j,
            {
                addrs.push(BindAddr { host, port: ports[j] });
                assert(ports@.take(j + 1).map_values(|p: u16| BindAddr { host, port: p })
                    =~= ports@.take(j as int).map_values(|p: u16| BindAddr { host, port: p }).push(
                    BindAddr { host, port: ports@[j as int] },
                ));
                j = j + 1;
            }
            proof {
                assert(ports@.take(ports@.len() as int) =~= ports@);
                let taken = hosts@.take(i + 1);
                assert(taken.drop_last() =~= hosts@.take(i as int));
                assert(taken.last() == host);
            }
            i = i + 1;
        }
        assert(hosts@.take(hosts@.len() as int) =~= hosts@);
        addrs
    }

    fn get_bind_hosts(&self) -> (r: Vec<HostAddr>)
        ensures
            r@ == listed(self.address.addrs),
    {
        listed_values(&self.address.addrs)
    }

    fn get_bind_ports(&self) -> (r: Vec<u16>)
        ensures
            r@ == listed(self.port.ports),
    {
        listed_values(&self.port.ports)
    }
}

/// Listening on `h` hosts and `p` ports gives `h * p` addresses, and the
/// address at `i * p + j` is host `i` on port `j`.
pub proof fn lemma_bind_pairs_grid(hosts: Seq<HostAddr>, ports: Seq<u16>, i: int, j: int)
    requires
        0 <= i < hosts.len(),
        0 <= j < ports.len(),
    ensures
        bind_pairs(hosts, ports).len() == hosts.len() * ports.len(),
        bind_pairs(hosts, ports)[i * ports.len() + j] == (BindAddr { host: hosts[i], port: ports[j] }),
    decreases hosts.len(),
{
    let front = hosts.drop_last();
    lemma_bind_pairs_len(front, ports);
    assert(hosts.len() * ports.len() == front.len() * ports.len() + ports.len()) by (nonlinear_arith)
        requires
            hosts.len() == front.len() + 1,
    ;
    if i < hosts.len() - 1 {
        lemma_bind_pairs_grid(front, ports, i, j);
        assert(i * ports.len() + j < front.len() * ports.len()) by (nonlinear_arith)
            requires
                i < front.len(),
                j < ports.len(),
        ;
    } else {
        assert(i * ports.len() == front.len() * ports.len());
    }
}

proof fn lemma_bind_pairs_len(hosts: Seq<HostAddr>, ports: Seq<u16>)
    ensures
        bind_pairs(hosts, ports).len() == hosts.len() * ports.len(),
    decreases hosts.len(),
{
    if hosts.len() > 0 {
        lemma_bind_pairs_len(hosts.drop_last(), ports);
        assert(hosts.len() * ports.len() == (hosts.len() - 1) * ports.len() + ports.len())
            by (nonlinear_arith);
    }
}

} // verus!
