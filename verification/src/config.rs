//! The configuration: what is kept on disk, what is shown, and what a change may be.

use vstd::prelude::*;
use vstd::string::*;

use crate::names;
use crate::text;

verus! {

/// The address of the API where none is configured.
pub const DEFAULT_API_URL: &'static str = "https://api.anthropic.com";

/// The version of the model where none is configured.
pub const DEFAULT_VERSION: &'static str = "-opus-4-7";

/// The port where none is configured.
pub const DEFAULT_PORT: u16 = 8765;

/// The path of the Messages API below the address of a server.
pub const MESSAGES_PATH: &'static str = "/v1/messages";

/// The name of the configuration file.
pub const CONFIG_FILE_NAME: &'static str = "config.json";

/// Models that used to be the default; whoever has one of them gets the default.
pub open spec fn legacy_default_models(name: Seq<char>) -> Seq<Seq<char>> {
    seq![names::model(name, "-sonnet-4-7"), names::model(name, "-sonnet-4-6")]
}

/// Which agent runs the tasks.
#[derive(Debug, Clone, Copy, PartialEq, Eq, Structural)]
pub enum AgentRuntime {
    Sdk,
    Legacy,
}

impl Default for AgentRuntime {
    fn default() -> (runtime: Self)
        ensures
            runtime == AgentRuntime::Sdk,
    {
        AgentRuntime::Sdk
    }
}

/// The configuration as it is shown: without the key.
#[derive(Debug)]
pub struct AppConfig {
    pub api_url: String,
    pub model: String,
    pub port: u16,
    pub has_api_key: bool,
    pub agent_runtime: AgentRuntime,
}

/// What an [`AppConfig`] says.
#[verifier::ext_equal]
pub struct AppConfigView {
    pub api_url: Seq<char>,
    pub model: Seq<char>,
    pub port: u16,
    pub has_api_key: bool,
    pub agent_runtime: AgentRuntime,
}

impl View for AppConfig {
    type V = AppConfigView;

    open spec fn view(&self) -> AppConfigView {
        AppConfigView {
            api_url: self.api_url@,
            model: self.model@,
            port: self.port,
            has_api_key: self.has_api_key,
            agent_runtime: self.agent_runtime,
        }
    }
}

/// A change of the configuration.
#[derive(Debug)]
pub struct SaveConfigPayload {
    pub api_url: String,
    pub api_key: Option<String>,
    pub model: String,
    pub port: u16,
    pub agent_runtime: Option<AgentRuntime>,
}

/// What a change asks for.
#[verifier::ext_equal]
pub struct PayloadView {
    pub api_url: Seq<char>,
    pub api_key: Option<Seq<char>>,
    pub model: Seq<char>,
    pub port: u16,
    pub agent_runtime: Option<AgentRuntime>,
}

impl View for SaveConfigPayload {
    type V = PayloadView;

    open spec fn view(&self) -> PayloadView {
        PayloadView {
            api_url: self.api_url@,
            api_key: text::option_text(self.api_key),
            model: self.model@,
            port: self.port,
            agent_runtime: self.agent_runtime,
        }
    }
}

/// The configuration as it is kept on disk.
#[derive(Debug)]
pub struct ConfigFile {
    pub api_url: String,
    pub model: String,
    pub port: u16,
    pub agent_runtime: AgentRuntime,
    pub api_key: Option<String>,
}

/// What a [`ConfigFile`] says.
#[verifier::ext_equal]
pub struct ConfigFileView {
    pub api_url: Seq<char>,
    pub model: Seq<char>,
    pub port: u16,
    pub agent_runtime: AgentRuntime,
    pub api_key: Option<Seq<char>>,
}

impl View for ConfigFile {
    type V = ConfigFileView;

    open spec fn view(&self) -> ConfigFileView {
        ConfigFileView {
            api_url: self.api_url@,
            model: self.model@,
            port: self.port,
            agent_runtime: self.agent_runtime,
            api_key: text::option_text(self.api_key),
        }
    }
}

/// What an optional file says.
pub open spec fn stored_view(stored: Option<ConfigFile>) -> Option<ConfigFileView> {
    match stored {
        Some(file) => Some(file@),
        None => None,
    }
}

/// Why a configuration is refused.
#[derive(Debug, Clone, Copy, PartialEq, Eq, Structural)]
pub enum ConfigError {
    Port,
    EmptyUrl,
    UrlScheme,
    EmptyModel,
    MissingKey,
}

impl ConfigError {
    /// What the user is told.
    pub open spec fn text(self) -> Seq<char> {
        match self {
            ConfigError::Port => "端口号需要是 1024~65535 之间的数字哦"@,
            ConfigError::EmptyUrl => "API 地址不能为空"@,
            ConfigError::UrlScheme => "API 地址需要以 http:// 或 https:// 开头"@,
            ConfigError::EmptyModel => "模型名称不能为空"@,
            ConfigError::MissingKey => "还没有填写密钥哦"@,
        }
    }

    /// What the user is told.
    pub fn message(&self) -> (message: String)
        ensures
            message@ == self.text(),
    {
        match self {
            ConfigError::Port => "端口号需要是 1024~65535 之间的数字哦".to_owned(),
            ConfigError::EmptyUrl => "API 地址不能为空".to_owned(),
            ConfigError::UrlScheme => "API 地址需要以 http:// 或 https:// 开头".to_owned(),
            ConfigError::EmptyModel => "模型名称不能为空".to_owned(),
            ConfigError::MissingKey => "还没有填写密钥哦".to_owned(),
        }
    }
}

// ---------------------------------------------------------------------------
// What is kept and what is shown
// ---------------------------------------------------------------------------

/// The configuration where none is kept.
pub open spec fn default_file(name: Seq<char>) -> ConfigFileView {
    ConfigFileView {
        api_url: DEFAULT_API_URL@,
        model: names::model(name, DEFAULT_VERSION),
        port: DEFAULT_PORT,
        agent_runtime: AgentRuntime::Sdk,
        api_key: None,
    }
}

/// The key without white space around it, where there is one that is not blank.
pub open spec fn usable_key(api_key: Option<Seq<char>>) -> Option<Seq<char>> {
    match api_key {
        Some(key) => if text::is_blank(key) {
            None
        } else {
            Some(text::trimmed(key))
        },
        None => None,
    }
}

/// The configuration in force: what is kept, or the default; with a model that used to be
/// the default replaced by the default.
pub open spec fn in_force(stored: Option<ConfigFileView>, name: Seq<char>) -> ConfigFileView {
    let file = match stored {
        Some(file) => file,
        None => default_file(name),
    };
    if legacy_default_models(name).contains(file.model) {
        ConfigFileView { model: names::model(name, DEFAULT_VERSION), ..file }
    } else {
        file
    }
}

/// How a configuration is shown.
pub open spec fn shown(file: ConfigFileView) -> AppConfigView {
    AppConfigView {
        api_url: file.api_url,
        model: file.model,
        port: file.port,
        has_api_key: usable_key(file.api_key) is Some,
        agent_runtime: file.agent_runtime,
    }
}

impl ConfigFile {
    /// The configuration where none is kept.
    pub fn default_for(assistant: &str) -> (file: ConfigFile)
        ensures
            file@ == default_file(assistant@),
    {
        ConfigFile {
            api_url: DEFAULT_API_URL.to_owned(),
            model: names::model_name(assistant, DEFAULT_VERSION),
            port: DEFAULT_PORT,
            agent_runtime: AgentRuntime::Sdk,
            api_key: None,
        }
    }
}

/// The key without white space around it, where there is one that is not blank.
fn trimmed_key(api_key: &Option<String>) -> (key: Option<String>)
    ensures
        text::option_text(key) == usable_key(text::option_text(*api_key)),
{
    match api_key {
        Some(key) => {
            let key = text::trim(key.as_str());
            if key.as_str().is_empty() {
                None
            } else {
                Some(key)
            }
        },
        None => None,
    }
}

impl ConfigFile {
    /// Whether there is a key that is not blank.
    pub fn has_api_key(&self) -> (has: bool)
        ensures
            has == (usable_key(self@.api_key) is Some),
    {
        trimmed_key(&self.api_key).is_some()
    }

    /// How the configuration is shown.
    pub fn into_app_config(self) -> (config: AppConfig)
        ensures
            config@ == shown(self@),
    {
        let has_api_key = self.has_api_key();
        AppConfig {
            api_url: self.api_url,
            model: self.model,
            port: self.port,
            has_api_key,
            agent_runtime: self.agent_runtime,
        }
    }
}

/// The configuration in force, from what is kept: nothing where there is no file, or none
/// that can be read.
pub fn load_config_file(stored: Option<ConfigFile>, assistant: &str) -> (file: ConfigFile)
    ensures
        file@ == in_force(stored_view(stored), assistant@),
{
    let mut file = match stored {
        Some(file) => file,
        None => ConfigFile::default_for(assistant),
    };
    proof {
        let models = legacy_default_models(assistant@);
        assert(models[0] == names::model(assistant@, "-sonnet-4-7"));
        assert(models[1] == names::model(assistant@, "-sonnet-4-6"));
    }
    let model = file.model.as_str();
    if text::same_text(model, names::model_name(assistant, "-sonnet-4-7").as_str())
        || text::same_text(model, names::model_name(assistant, "-sonnet-4-6").as_str()) {
        file.model = names::model_name(assistant, DEFAULT_VERSION);
    }
    file
}

/// The configuration as it is shown.
pub fn load_config(stored: Option<ConfigFile>, assistant: &str) -> (config: AppConfig)
    ensures
        config@ == shown(in_force(stored_view(stored), assistant@)),
{
    load_config_file(stored, assistant).into_app_config()
}

/// Which agent runs the tasks.
pub fn load_agent_runtime(stored: Option<ConfigFile>, assistant: &str) -> (runtime: AgentRuntime)
    ensures
        runtime == in_force(stored_view(stored), assistant@).agent_runtime,
{
    load_config_file(stored, assistant).agent_runtime
}

/// The key, without white space around it.
pub fn require_api_key(stored: Option<ConfigFile>, assistant: &str) -> (result: Result<
    String,
    ConfigError,
>)
    ensures
        match result {
            Ok(key) => usable_key(in_force(stored_view(stored), assistant@).api_key) == Some(key@),
            Err(error) => error == ConfigError::MissingKey && usable_key(
                in_force(stored_view(stored), assistant@).api_key,
            ) is None,
        },
{
    match trimmed_key(&load_config_file(stored, assistant).api_key) {
        Some(key) => Ok(key),
        None => Err(ConfigError::MissingKey),
    }
}

// ---------------------------------------------------------------------------
// Changes
// ---------------------------------------------------------------------------

/// Whether a port may be used.
pub open spec fn is_port(port: u16) -> bool {
    port >= 1024
}

/// The address of the Messages API on a server, or why the address is none.
pub open spec fn messages_url(input: Seq<char>) -> Result<Seq<char>, ConfigError> {
    let address = text::without_tail(text::trimmed(input), "/"@);
    let url = if MESSAGES_PATH@.is_suffix_of(address) {
        address
    } else {
        address + MESSAGES_PATH@
    };
    if address.len() == 0 {
        Err(ConfigError::EmptyUrl)
    } else if "http://"@.is_prefix_of(url) || "https://"@.is_prefix_of(url) {
        Ok(url)
    } else {
        Err(ConfigError::UrlScheme)
    }
}

/// The address of a server without the path of the Messages API, or why it is none.
pub open spec fn api_base_url(input: Seq<char>) -> Result<Seq<char>, ConfigError> {
    match messages_url(input) {
        Ok(url) => Ok(text::without_tail(text::without_tail(url, MESSAGES_PATH@), "/"@)),
        Err(error) => Err(error),
    }
}

/// Why a change is refused, if it is.
pub open spec fn refusal(payload: PayloadView) -> Option<ConfigError> {
    if !is_port(payload.port) {
        Some(ConfigError::Port)
    } else if text::is_blank(payload.api_url) {
        Some(ConfigError::EmptyUrl)
    } else if messages_url(text::trimmed(payload.api_url)) is Err {
        Some(messages_url(text::trimmed(payload.api_url))->Err_0)
    } else if text::is_blank(payload.model) {
        Some(ConfigError::EmptyModel)
    } else {
        None
    }
}

/// The configuration after a change. A blank key, and an agent that is not named, leave
/// what was in force.
pub open spec fn changed(previous: ConfigFileView, payload: PayloadView) -> ConfigFileView {
    ConfigFileView {
        api_url: text::trimmed(payload.api_url),
        model: text::trimmed(payload.model),
        port: payload.port,
        agent_runtime: match payload.agent_runtime {
            Some(runtime) => runtime,
            None => previous.agent_runtime,
        },
        api_key: match usable_key(payload.api_key) {
            Some(key) => Some(key),
            None => previous.api_key,
        },
    }
}

/// Checks a port.
pub fn validate_port(port: u16) -> (result: Result<(), ConfigError>)
    ensures
        result == (if is_port(port) {
            Ok::<(), ConfigError>(())
        } else {
            Err(ConfigError::Port)
        }),
{
    if port < 1024 {
        return Err(ConfigError::Port);
    }
    Ok(())
}

/// The address of the Messages API on a server.
pub fn normalize_messages_url(input: &str) -> (result: Result<String, ConfigError>)
    ensures
        match result {
            Ok(url) => messages_url(input@) == Ok::<Seq<char>, ConfigError>(url@),
            Err(error) => messages_url(input@) == Err::<Seq<char>, ConfigError>(error),
        },
{
    let trimmed = text::trim(input);
    let address = text::strip_tail(trimmed.as_str(), "/");
    if address.as_str().is_empty() {
        return Err(ConfigError::EmptyUrl);
    }
    let mut url = address;
    if !text::ends_with(url.as_str(), MESSAGES_PATH) {
        url.append(MESSAGES_PATH);
    }
    if !(text::starts_with(url.as_str(), "http://") || text::starts_with(
        url.as_str(),
        "https://",
    )) {
        return Err(ConfigError::UrlScheme);
    }
    Ok(url)
}

/// The address of a server without the path of the Messages API.
pub fn normalize_api_base_url(input: &str) -> (result: Result<String, ConfigError>)
    ensures
        match result {
            Ok(url) => api_base_url(input@) == Ok::<Seq<char>, ConfigError>(url@),
            Err(error) => api_base_url(input@) == Err::<Seq<char>, ConfigError>(error),
        },
{
    match normalize_messages_url(input) {
        Ok(url) => {
            let server = text::strip_tail(url.as_str(), MESSAGES_PATH);
            Ok(text::strip_tail(server.as_str(), "/"))
        },
        Err(error) => Err(error),
    }
}

/// Checks a change and applies it to what is kept. Gives what to keep and what to show.
pub fn save_config(payload: SaveConfigPayload, stored: Option<ConfigFile>, assistant: &str) -> (result: Result<
    (ConfigFile, AppConfig),
    ConfigError,
>)
    ensures
        match result {
            Ok((file, config)) => refusal(payload@) is None && file@ == changed(
                in_force(stored_view(stored), assistant@),
                payload@,
            ) && config@ == shown(file@),
            Err(error) => refusal(payload@) == Some(error),
        },
{
    match validate_port(payload.port) {
        Ok(()) => {},
        Err(error) => {
            return Err(error);
        },
    }
    let api_url = text::trim(payload.api_url.as_str());
    if api_url.as_str().is_empty() {
        return Err(ConfigError::EmptyUrl);
    }
    match normalize_messages_url(api_url.as_str()) {
        Ok(_) => {},
        Err(error) => {
            return Err(error);
        },
    }
    let model = text::trim(payload.model.as_str());
    if model.as_str().is_empty() {
        return Err(ConfigError::EmptyModel);
    }
    let previous = load_config_file(stored, assistant);
    let api_key = match trimmed_key(&payload.api_key) {
        Some(key) => Some(key),
        None => previous.api_key,
    };
    let agent_runtime = match payload.agent_runtime {
        Some(runtime) => runtime,
        None => previous.agent_runtime,
    };
    let config = AppConfig {
        api_url: api_url.clone(),
        model: model.clone(),
        port: payload.port,
        has_api_key: trimmed_key(&api_key).is_some(),
        agent_runtime,
    };
    let file = ConfigFile { api_url, model, port: payload.port, agent_runtime, api_key };
    Ok((file, config))
}

// ---------------------------------------------------------------------------
// Laws
// ---------------------------------------------------------------------------

/// A blank key, or none, leaves the key that was kept.
pub proof fn law_blank_key_keeps_the_saved_one(previous: ConfigFileView, payload: PayloadView)
    requires
        payload.api_key matches Some(key) ==> text::is_blank(key),
    ensures
        changed(previous, payload).api_key == previous.api_key,
        shown(changed(previous, payload)).has_api_key == shown(previous).has_api_key,
{
}

/// What is shown after a change is what is loaded afterwards, unless the model is one that
/// used to be the default.
pub proof fn law_saved_is_loaded(
    previous: ConfigFileView,
    payload: PayloadView,
    name: Seq<char>,
)
    requires
        !legacy_default_models(name).contains(text::trimmed(payload.model)),
    ensures
        in_force(Some(changed(previous, payload)), name) == changed(previous, payload),
{
}

/// To normalise an address that is normalised already changes nothing.
pub proof fn law_messages_url_is_stable(input: Seq<char>, url: Seq<char>)
    requires
        messages_url(input) == Ok::<Seq<char>, ConfigError>(url),
    ensures
        messages_url(url) == Ok::<Seq<char>, ConfigError>(url),
{
    reveal_strlit("http://");
    reveal_strlit("https://");
    reveal_strlit("/v1/messages");
    reveal_strlit("/");
    let path = MESSAGES_PATH@;
    assert(path.len() == 12);
    assert("http://"@.len() == 7 && "http://"@[0] == 'h');
    assert("https://"@.len() == 8 && "https://"@[0] == 'h');
    assert("/"@.len() == 1 && "/"@[0] == '/');
    let address = text::without_tail(text::trimmed(input), "/"@);
    assert(path.is_suffix_of(url)) by {
        if !path.is_suffix_of(address) {
            assert(url.subrange(url.len() - path.len(), url.len() as int) =~= path);
        }
    }
    assert(url[0] == 'h') by {
        if "http://"@.is_prefix_of(url) {
            assert(url.subrange(0, 7)[0] == 'h');
        } else {
            assert(url.subrange(0, 8)[0] == 'h');
        }
    }
    assert(url.last() == 's') by {
        assert(url.subrange(url.len() - 12, url.len() as int)[11] == path[11]);
    }
    assert(text::trimmed_start(url) == url);
    assert(text::trimmed_end(url) == url);
    assert(!"/"@.is_suffix_of(url)) by {
        if "/"@.is_suffix_of(url) {
            assert(url.subrange(url.len() - 1, url.len() as int)[0] == '/');
        }
    }
}

/// The model in force is never one that used to be the default.
pub proof fn law_legacy_models_are_gone(stored: Option<ConfigFileView>, name: Seq<char>)
    ensures
        !legacy_default_models(name).contains(in_force(stored, name).model),
        in_force(Some(in_force(stored, name)), name) == in_force(stored, name),
{
    reveal_strlit("-opus-4-7");
    reveal_strlit("-sonnet-4-7");
    reveal_strlit("-sonnet-4-6");
    let model = names::model(name, DEFAULT_VERSION);
    assert(DEFAULT_VERSION@.len() == 9);
    assert("-sonnet-4-7"@.len() == 11);
    assert("-sonnet-4-6"@.len() == 11);
    let models = legacy_default_models(name);
    if models.contains(model) {
        let i = choose|i: int| 0 <= i < models.len() && models[i] == model;
        assert(i == 0 || i == 1);
        assert(model.len() == text::lowered(name).len() + 9);
        assert(models[i].len() == text::lowered(name).len() + 11);
    }
}

proof fn lemma_trimming_shortens(input: Seq<char>)
    ensures
        text::trimmed_start(input).len() <= input.len(),
        text::trimmed_end(input).len() <= input.len(),
    decreases input.len(),
{
    if input.len() > 0 {
        lemma_trimming_shortens(input.skip(1));
        lemma_trimming_shortens(input.drop_last());
    }
}

/// A server's address and the address of the Messages API on it are the same to the user.
pub proof fn law_root_and_full_agree(root: Seq<char>)
    requires
        text::trimmed(root) == root,
        !"/"@.is_suffix_of(root),
        !MESSAGES_PATH@.is_suffix_of(root),
        root.len() > 0,
    ensures
        messages_url(root + MESSAGES_PATH@) == messages_url(root),
        messages_url(root) matches Ok(url) ==> url == root + MESSAGES_PATH@,
        api_base_url(root) matches Ok(base) ==> base == root,
{
    reveal_strlit("/v1/messages");
    reveal_strlit("/");
    let path = MESSAGES_PATH@;
    let full = root + path;
    assert(path.len() == 12);
    assert("/"@.len() == 1);
    assert(full.subrange(full.len() - 12, full.len() as int) =~= path);
    assert(full.last() == 's');
    assert(full[0] == root[0]);
    assert(!text::is_white(root[0])) by {
        lemma_trimming_shortens(root.skip(1));
        lemma_trimming_shortens(text::trimmed_start(root));
    }
    assert(text::trimmed(full) == full);
    assert(!"/"@.is_suffix_of(full)) by {
        if "/"@.is_suffix_of(full) {
            assert(full.subrange(full.len() - 1, full.len() as int)[0] == '/');
        }
    }
    assert(full.take(full.len() - 12) =~= root);
    assert(text::without_tail(full, path) == root) by {
        reveal_with_fuel(text::without_tail, 2);
    }
}

} // verus!
