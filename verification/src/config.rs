//! Configuration: what a file may say, what holds where it says nothing, and where it is looked
//! for.
use crate::error::{AppError, AppResult};
use crate::paths;
use crate::text;
use crate::tool_catalog;
use crate::tool_catalog::Tool;
use vstd::prelude::*;

verus! {

pub const DEFAULT_TOKEN_BUDGET: u32 = 4_000;

pub const DEFAULT_MAX_OUTPUT_TOKENS: u32 = 1_024;

pub const DEFAULT_MAX_TURNS: u32 = 8;

pub const DEFAULT_TIMEOUT_MS: u64 = 120_000;

/// The configuration of a run.
#[derive(Debug, PartialEq, Eq)]
pub struct Config {
    pub provider: ProviderConfig,
    pub limits: LimitsConfig,
    pub tools: ToolsConfig,
}

/// The model provider.
#[derive(Debug, PartialEq, Eq)]
pub struct ProviderConfig {
    pub kind: ProviderKind,
    pub model: String,
    pub api_key_env: String,
    pub base_url: String,
    pub timeout_ms: u64,
    pub http_referer: Option<String>,
    pub app_title: Option<String>,
}

/// The kinds of model provider.
#[derive(Clone, Copy, Debug, PartialEq, Eq, Structural)]
pub enum ProviderKind {
    OpenAi,
    OpenRouter,
}

/// The limits of a run.
#[derive(Clone, Copy, Debug, PartialEq, Eq, Structural)]
pub struct LimitsConfig {
    pub token_budget: u32,
    pub max_output_tokens: u32,
    pub max_turns: u32,
}

/// The tools that are enabled.
#[derive(Debug, PartialEq, Eq)]
pub struct ToolsConfig {
    pub enabled: Vec<String>,
}

/// What a configuration file says.
#[derive(Debug, PartialEq, Eq)]
pub struct RawConfig {
    pub provider: Option<RawProviderConfig>,
    pub limits: Option<RawLimitsConfig>,
    pub tools: Option<RawToolsConfig>,
}

/// What a configuration file says of the provider.
#[derive(Debug, PartialEq, Eq)]
pub struct RawProviderConfig {
    pub kind: Option<ProviderKind>,
    pub model: Option<String>,
    pub api_key_env: Option<String>,
    pub base_url: Option<String>,
    pub timeout_ms: Option<u64>,
    pub http_referer: Option<String>,
    pub app_title: Option<String>,
}

/// What a configuration file says of the limits.
#[derive(Clone, Copy, Debug, PartialEq, Eq)]
pub struct RawLimitsConfig {
    pub token_budget: Option<u32>,
    pub max_output_tokens: Option<u32>,
    pub max_turns: Option<u32>,
}

/// What a configuration file says of the tools.
#[derive(Debug, PartialEq, Eq)]
pub struct RawToolsConfig {
    pub enabled: Option<Vec<String>>,
}

/// The model of a provider where none is named.
pub open spec fn model_of(kind: ProviderKind) -> Seq<char> {
    match kind {
        ProviderKind::OpenAi => "gpt-5.5"@,
        ProviderKind::OpenRouter => "~openai/gpt-latest"@,
    }
}

/// The environment variable with a provider's key where none is named.
pub open spec fn api_key_env_of(kind: ProviderKind) -> Seq<char> {
    match kind {
        ProviderKind::OpenAi => "OPENAI_API_KEY"@,
        ProviderKind::OpenRouter => "OPENROUTER_API_KEY"@,
    }
}

/// The address of a provider where none is named.
pub open spec fn base_url_of(kind: ProviderKind) -> Seq<char> {
    match kind {
        ProviderKind::OpenAi => "https://api.openai.com/v1"@,
        ProviderKind::OpenRouter => "https://openrouter.ai/api/v1"@,
    }
}

/// The model of a provider where none is named.
pub fn default_model(kind: &ProviderKind) -> (r: &'static str)
    ensures
        r@ == model_of(*kind),
{
    match kind {
        ProviderKind::OpenAi => "gpt-5.5",
        ProviderKind::OpenRouter => "~openai/gpt-latest",
    }
}

/// The environment variable with a provider's key where none is named.
pub fn default_api_key_env(kind: &ProviderKind) -> (r: &'static str)
    ensures
        r@ == api_key_env_of(*kind),
{
    match kind {
        ProviderKind::OpenAi => "OPENAI_API_KEY",
        ProviderKind::OpenRouter => "OPENROUTER_API_KEY",
    }
}

/// The address of a provider where none is named.
pub fn default_base_url(kind: &ProviderKind) -> (r: &'static str)
    ensures
        r@ == base_url_of(*kind),
{
    match kind {
        ProviderKind::OpenAi => "https://api.openai.com/v1",
        ProviderKind::OpenRouter => "https://openrouter.ai/api/v1",
    }
}

/// The number that a file gives, or the default.
pub open spec fn given<T>(value: Option<T>, default: T) -> T {
    match value {
        Some(v) => v,
        None => default,
    }
}

/// The text that a file gives, or the default.
pub open spec fn given_text(value: Option<String>, default: Seq<char>) -> Seq<char> {
    match value {
        Some(v) => v@,
        None => default,
    }
}

impl RawConfig {
    /// What the file says of the provider; nothing at all where it has no such table.
    pub open spec fn provider_or_none(self) -> RawProviderConfig {
        match self.provider {
            Some(provider) => provider,
            None => RawProviderConfig {
                kind: None,
                model: None,
                api_key_env: None,
                base_url: None,
                timeout_ms: None,
                http_referer: None,
                app_title: None,
            },
        }
    }

    /// What the file says of the limits; nothing at all where it has no such table.
    pub open spec fn limits_or_none(self) -> RawLimitsConfig {
        match self.limits {
            Some(limits) => limits,
            None => RawLimitsConfig { token_budget: None, max_output_tokens: None, max_turns: None },
        }
    }

    /// The token budget that holds.
    pub open spec fn token_budget(self) -> u32 {
        given(self.limits_or_none().token_budget, DEFAULT_TOKEN_BUDGET)
    }

    /// The output limit that holds.
    pub open spec fn max_output_tokens(self) -> u32 {
        given(self.limits_or_none().max_output_tokens, DEFAULT_MAX_OUTPUT_TOKENS)
    }

    /// The turn limit that holds.
    pub open spec fn max_turns(self) -> u32 {
        given(self.limits_or_none().max_turns, DEFAULT_MAX_TURNS)
    }

    /// The timeout that holds.
    pub open spec fn timeout_ms(self) -> u64 {
        given(self.provider_or_none().timeout_ms, DEFAULT_TIMEOUT_MS)
    }

    /// The provider kind that holds.
    pub open spec fn kind(self) -> ProviderKind {
        given(self.provider_or_none().kind, ProviderKind::OpenRouter)
    }

    /// The tools that are enabled.
    pub open spec fn enabled(self) -> Seq<Seq<char>> {
        match self.tools {
            Some(RawToolsConfig { enabled: Some(enabled) }) => text::views(enabled@),
            _ => tool_catalog::catalog().map_values(|tool: Tool| tool.internal()),
        }
    }

    /// What is wrong with the file, if anything is: the first limit that is zero, an empty list of
    /// tools, or the first tool that the catalogue does not have.
    pub open spec fn complaint(self) -> Option<Seq<char>> {
        if self.token_budget() == 0 {
            Some("limits.token_budget"@ + " must be positive"@)
        } else if self.max_output_tokens() == 0 {
            Some("limits.max_output_tokens"@ + " must be positive"@)
        } else if self.max_turns() == 0 {
            Some("limits.max_turns"@ + " must be positive"@)
        } else if self.timeout_ms() == 0 {
            Some("provider.timeout_ms"@ + " must be positive"@)
        } else if self.enabled().len() == 0 {
            Some("tools.enabled must not be empty"@)
        } else {
            match first_unknown(self.enabled()) {
                Some(tool) => Some("unknown tool in tools.enabled: "@ + tool),
                None => None,
            }
        }
    }
}

/// The first name that the catalogue does not have.
pub open spec fn first_unknown(names: Seq<Seq<char>>) -> Option<Seq<char>>
    decreases names.len(),
{
    if names.len() == 0 {
        None
    } else if tool_catalog::named(names[0]) is None {
        Some(names[0])
    } else {
        first_unknown(names.drop_first())
    }
}

fn find_unknown(names: &Vec<String>) -> (r: Option<usize>)
    ensures
        r matches Some(i) ==> i < names@.len() && first_unknown(text::views(names@)) == Some(
            names@[i as int]@,
        ),
        r is None ==> first_unknown(text::views(names@)) is None,
{
    let ghost all = text::views(names@);
    let mut i: usize = 0;
    assert(all.skip(0) =~= all);
    while i < names.len()
        invariant
            0 <= i <= names@.len(),
            all == text::views(names@),
            first_unknown(all) == first_unknown(all.skip(i as int)),
        decreases names@.len() - i,
    {
        assert(all.skip(i as int)[0] == names@[i as int]@);
        if !tool_catalog::is_known_tool(names[i].as_str()) {
            return Some(i);
        }
        assert(all.skip(i as int).drop_first() =~= all.skip(i + 1));
        i += 1;
    }
    None
}

fn check_positive(value: u64, field: &str) -> (r: AppResult<()>)
    ensures
        r is Ok <==> value > 0,
        r matches Err(error) ==> error matches AppError::Config(detail) && detail@ == field@
            + " must be positive"@,
{
    if value == 0 {
        Err(AppError::Config(text::text2(field, " must be positive")))
    } else {
        Ok(())
    }
}

fn text_or(value: Option<String>, default: &str) -> (r: String)
    ensures
        r@ == given_text(value, default@),
        value matches Some(v) ==> r == v,
{
    match value {
        Some(v) => v,
        None => default.to_owned(),
    }
}

impl Config {
    /// Whether the limits are positive and the tools are some of the catalogue's.
    pub open spec fn valid(self) -> bool {
        &&& self.limits.token_budget > 0
        &&& self.limits.max_output_tokens > 0
        &&& self.limits.max_turns > 0
        &&& self.provider.timeout_ms > 0
        &&& self.tools.enabled@.len() > 0
        &&& forall|i: int|
            0 <= i < self.tools.enabled@.len() ==> tool_catalog::named(
                (#[trigger] self.tools.enabled@[i])@,
            ) is Some
    }

    /// The configuration that a file stands for.
    pub fn from_raw(raw: RawConfig) -> (r: AppResult<Config>)
        ensures
            r is Ok <==> raw.complaint() is None,
            r matches Err(error) ==> error matches AppError::Config(detail) && Some(detail@)
                == raw.complaint(),
            r matches Ok(config) ==> {
                &&& config.valid()
                &&& config.limits == (LimitsConfig {
                    token_budget: raw.token_budget(),
                    max_output_tokens: raw.max_output_tokens(),
                    max_turns: raw.max_turns(),
                })
                &&& config.provider.kind == raw.kind()
                &&& config.provider.timeout_ms == raw.timeout_ms()
                &&& config.provider.model@ == given_text(
                    raw.provider_or_none().model,
                    model_of(raw.kind()),
                )
                &&& config.provider.api_key_env@ == given_text(
                    raw.provider_or_none().api_key_env,
                    api_key_env_of(raw.kind()),
                )
                &&& config.provider.base_url@ == given_text(
                    raw.provider_or_none().base_url,
                    base_url_of(raw.kind()),
                )
                &&& config.provider.http_referer == raw.provider_or_none().http_referer
                &&& config.provider.app_title == raw.provider_or_none().app_title
                &&& text::views(config.tools.enabled@) == raw.enabled()
            },
    {
        let provider = match raw.provider {
            Some(provider) => provider,
            None => RawProviderConfig {
                kind: None,
                model: None,
                api_key_env: None,
                base_url: None,
                timeout_ms: None,
                http_referer: None,
                app_title: None,
            },
        };
        let limits = match raw.limits {
            Some(limits) => limits,
            None => RawLimitsConfig { token_budget: None, max_output_tokens: None, max_turns: None },
        };
        let token_budget: u32 = limits.token_budget.unwrap_or(DEFAULT_TOKEN_BUDGET);
        let max_output_tokens: u32 = limits.max_output_tokens.unwrap_or(DEFAULT_MAX_OUTPUT_TOKENS);
        let max_turns: u32 = limits.max_turns.unwrap_or(DEFAULT_MAX_TURNS);
        let timeout_ms: u64 = provider.timeout_ms.unwrap_or(DEFAULT_TIMEOUT_MS);
        if let Err(error) = check_positive(token_budget as u64, "limits.token_budget") {
            return Err(error);
        }
        if let Err(error) = check_positive(max_output_tokens as u64, "limits.max_output_tokens") {
            return Err(error);
        }
        if let Err(error) = check_positive(max_turns as u64, "limits.max_turns") {
            return Err(error);
        }
        if let Err(error) = check_positive(timeout_ms, "provider.timeout_ms") {
            return Err(error);
        }
        let kind = provider.kind.unwrap_or(ProviderKind::OpenRouter);
        let enabled = match raw.tools {
            Some(RawToolsConfig { enabled: Some(enabled) }) => enabled,
            _ => tool_catalog::default_enabled_tools(),
        };
        assert(text::views(enabled@) == raw.enabled());
        if enabled.len() == 0 {
            return Err(AppError::Config("tools.enabled must not be empty".to_owned()));
        }
        if let Some(i) = find_unknown(&enabled) {
            return Err(
                AppError::Config(
                    text::text2("unknown tool in tools.enabled: ", enabled[i].as_str()),
                ),
            );
        }
        proof {
            lemma_all_known(text::views(enabled@));
            assert forall|i: int| 0 <= i < enabled@.len() implies tool_catalog::named(
                (#[trigger] enabled@[i])@,
            ) is Some by {
                assert(text::views(enabled@)[i] == enabled@[i]@);
            }
        }
        Ok(
            Config {
                provider: ProviderConfig {
                    kind,
                    model: text_or(provider.model, default_model(&kind)),
                    api_key_env: text_or(provider.api_key_env, default_api_key_env(&kind)),
                    base_url: text_or(provider.base_url, default_base_url(&kind)),
                    timeout_ms,
                    http_referer: provider.http_referer,
                    app_title: provider.app_title,
                },
                limits: LimitsConfig { token_budget, max_output_tokens, max_turns },
                tools: ToolsConfig { enabled },
            },
        )
    }
}

proof fn lemma_all_known(names: Seq<Seq<char>>)
    requires
        first_unknown(names) is None,
    ensures
        forall|i: int| 0 <= i < names.len() ==> tool_catalog::named(#[trigger] names[i]) is Some,
    decreases names.len(),
{
    if names.len() > 0 {
        lemma_all_known(names.drop_first());
        assert forall|i: int| 0 <= i < names.len() implies tool_catalog::named(
            #[trigger] names[i],
        ) is Some by {
            if i > 0 {
                assert(names.drop_first()[i - 1] == names[i]);
            }
        }
    }
}

impl Default for Config {
    fn default() -> (r: Config)
        ensures
            r.valid(),
            r.provider.kind == ProviderKind::OpenRouter,
            r.provider.model@ == model_of(ProviderKind::OpenRouter),
            r.provider.api_key_env@ == api_key_env_of(ProviderKind::OpenRouter),
            r.provider.base_url@ == base_url_of(ProviderKind::OpenRouter),
            r.provider.timeout_ms == DEFAULT_TIMEOUT_MS,
            r.provider.http_referer is None,
            r.provider.app_title is None,
            r.limits == (LimitsConfig {
                token_budget: DEFAULT_TOKEN_BUDGET,
                max_output_tokens: DEFAULT_MAX_OUTPUT_TOKENS,
                max_turns: DEFAULT_MAX_TURNS,
            }),
            text::views(r.tools.enabled@) == tool_catalog::catalog().map_values(
                |tool: Tool| tool.internal(),
            ),
    {
        let kind = ProviderKind::OpenRouter;
        let enabled = tool_catalog::default_enabled_tools();
        proof {
            assert(text::views(enabled@).len() == 5);
            assert forall|i: int| 0 <= i < enabled@.len() implies tool_catalog::named(
                (#[trigger] enabled@[i])@,
            ) is Some by {
                let tool = tool_catalog::catalog()[i];
                assert(text::views(enabled@)[i] == tool.internal());
                tool_catalog::law_names_find_their_tool(tool);
            }
        }
        Config {
            provider: ProviderConfig {
                kind,
                model: default_model(&kind).to_owned(),
                api_key_env: default_api_key_env(&kind).to_owned(),
                base_url: default_base_url(&kind).to_owned(),
                timeout_ms: DEFAULT_TIMEOUT_MS,
                http_referer: None,
                app_title: None,
            },
            limits: LimitsConfig {
                token_budget: DEFAULT_TOKEN_BUDGET,
                max_output_tokens: DEFAULT_MAX_OUTPUT_TOKENS,
                max_turns: DEFAULT_MAX_TURNS,
            },
            tools: ToolsConfig { enabled },
        }
    }
}

/// A file that says nothing stands for the default configuration.
pub proof fn law_silent_file_is_default(raw: RawConfig)
    requires
        raw.provider is None,
        raw.limits is None,
        raw.tools is None,
    ensures
        raw.complaint() is None,
        raw.kind() == ProviderKind::OpenRouter,
        raw.token_budget() == DEFAULT_TOKEN_BUDGET,
        raw.max_output_tokens() == DEFAULT_MAX_OUTPUT_TOKENS,
        raw.max_turns() == DEFAULT_MAX_TURNS,
        raw.timeout_ms() == DEFAULT_TIMEOUT_MS,
        raw.enabled() == tool_catalog::catalog().map_values(|tool: Tool| tool.internal()),
{
    let names = raw.enabled();
    assert forall|i: int| 0 <= i < names.len() implies tool_catalog::named(
        #[trigger] names[i],
    ) is Some by {
        tool_catalog::law_names_find_their_tool(tool_catalog::catalog()[i]);
    }
    lemma_known_has_no_unknown(names);
}

proof fn lemma_known_has_no_unknown(names: Seq<Seq<char>>)
    requires
        forall|i: int| 0 <= i < names.len() ==> tool_catalog::named(#[trigger] names[i]) is Some,
    ensures
        first_unknown(names) is None,
    decreases names.len(),
{
    if names.len() > 0 {
        assert(tool_catalog::named(names[0]) is Some);
        assert forall|i: int| 0 <= i < names.drop_first().len() implies tool_catalog::named(
            #[trigger] names.drop_first()[i],
        ) is Some by {
            assert(names[i + 1] == names.drop_first()[i]);
        }
        lemma_known_has_no_unknown(names.drop_first());
    }
}

/// A leading `~` replaced by the home directory.
pub open spec fn tilde_expanded(path: Seq<char>, home: Option<Seq<char>>) -> Option<Seq<char>> {
    if path == "~"@ {
        home
    } else if text::starts_with(path, "~/"@) {
        match home {
            Some(h) => Some(paths::joined_path(h, path.skip(2))),
            None => None,
        }
    } else {
        Some(path)
    }
}

/// Replaces a leading `~` by the home directory, which must then be known.
pub fn expand_leading_tilde(path: &str, home: &Option<String>) -> (r: AppResult<String>)
    ensures
        r is Ok <==> tilde_expanded(path@, text::opt_view(*home)) is Some,
        r matches Ok(p) ==> tilde_expanded(path@, text::opt_view(*home)) == Some(p@),
        r matches Err(error) ==> error matches AppError::Config(detail) && detail@
            == "HOME is required for ~ expansion"@,
{
    proof {
        reveal_strlit("~/");
    }
    if text::same_text(path, "~") {
        match home {
            Some(h) => Ok(h.clone()),
            None => Err(AppError::Config("HOME is required for ~ expansion".to_owned())),
        }
    } else if text::has_prefix(path, "~/") {
        match home {
            Some(h) => {
                let chars = text::chars_of(path);
                let rest = text::text_between(&chars, 2, chars.len());
                assert(rest@ =~= path@.skip(2));
                Ok(paths::join_path(h.as_str(), rest.as_str()))
            },
            None => Err(AppError::Config("HOME is required for ~ expansion".to_owned())),
        }
    } else {
        Ok(path.to_owned())
    }
}

/// Where a configuration file that was named is looked for.
pub open spec fn named_config(
    workspace_root: Seq<char>,
    path: Seq<char>,
    home: Option<Seq<char>>,
) -> Option<Seq<char>> {
    match tilde_expanded(path, home) {
        Some(p) => Some(paths::joined_path(workspace_root, p)),
        None => None,
    }
}

/// Where a configuration file that was named is looked for: `~` is the home directory, and what is
/// not absolute is taken from the workspace.
pub fn resolve_explicit_config_path(
    workspace_root: &str,
    path: &str,
    home: &Option<String>,
) -> (r: AppResult<String>)
    ensures
        r is Ok <==> named_config(workspace_root@, path@, text::opt_view(*home)) is Some,
        r matches Ok(p) ==> named_config(workspace_root@, path@, text::opt_view(*home)) == Some(p@),
        r matches Err(error) ==> error matches AppError::Config(detail) && detail@
            == "HOME is required for ~ expansion"@,
{
    match expand_leading_tilde(path, home) {
        Ok(p) => Ok(paths::join_path(workspace_root, p.as_str())),
        Err(error) => Err(error),
    }
}

/// The configuration file of a workspace.
pub open spec fn workspace_config(workspace_root: Seq<char>) -> Seq<char> {
    paths::joined_path(workspace_root, "plato.toml"@)
}

/// The configuration file of a user.
pub open spec fn user_config(home: Seq<char>) -> Seq<char> {
    paths::joined_path(
        paths::joined_path(paths::joined_path(home, ".config"@), "plato"@),
        "config.toml"@,
    )
}

/// The configuration file of a workspace.
pub fn workspace_config_path(workspace_root: &str) -> (r: String)
    ensures
        r@ == workspace_config(workspace_root@),
{
    paths::join_path(workspace_root, "plato.toml")
}

/// The configuration file of a user.
pub fn user_config_path(home: &str) -> (r: String)
    ensures
        r@ == user_config(home@),
{
    paths::join_path(
        paths::join_path(paths::join_path(home, ".config").as_str(), "plato").as_str(),
        "config.toml",
    )
}

/// The configuration file that is used: the one named by the caller, else the one named by the
/// environment, else the workspace's, else the user's, else none. Of the last two, only a file
/// that exists counts.
pub fn resolve_config_path_with(
    workspace_root: &str,
    explicit_path: &Option<String>,
    env_path: &Option<String>,
    home: &Option<String>,
    workspace_config_exists: bool,
    user_config_exists: bool,
) -> (r: AppResult<Option<String>>)
    ensures
        ({
            let h = text::opt_view(*home);
            let named = match (explicit_path, env_path) {
                (Some(path), _) => Some(path@),
                (None, Some(path)) => Some(path@),
                (None, None) => None,
            };
            match named {
                Some(path) => match named_config(workspace_root@, path, h) {
                    Some(p) => r matches Ok(Some(found)) && found@ == p,
                    None => r matches Err(AppError::Config(detail)) && detail@
                        == "HOME is required for ~ expansion"@,
                },
                None => if workspace_config_exists {
                    r matches Ok(Some(found)) && found@ == workspace_config(workspace_root@)
                } else if user_config_exists && home is Some {
                    r matches Ok(Some(found)) && found@ == user_config(home->Some_0@)
                } else {
                    r matches Ok(None)
                },
            }
        }),
{
    let named = match explicit_path {
        Some(path) => Some(path),
        None => match env_path {
            Some(path) => Some(path),
            None => None,
        },
    };
    if let Some(path) = named {
        return match resolve_explicit_config_path(workspace_root, path.as_str(), home) {
            Ok(p) => Ok(Some(p)),
            Err(error) => Err(error),
        };
    }
    if workspace_config_exists {
        return Ok(Some(workspace_config_path(workspace_root)));
    }
    if user_config_exists {
        if let Some(h) = home {
            return Ok(Some(user_config_path(h.as_str())));
        }
    }
    Ok(None)
}

/// Each provider has its own default model, key and address.
pub proof fn law_providers_have_their_defaults(kind: ProviderKind)
    ensures
        kind == ProviderKind::OpenAi ==> model_of(kind) == "gpt-5.5"@ && api_key_env_of(kind)
            == "OPENAI_API_KEY"@ && base_url_of(kind) == "https://api.openai.com/v1"@,
        kind == ProviderKind::OpenRouter ==> model_of(kind) == "~openai/gpt-latest"@
            && api_key_env_of(kind) == "OPENROUTER_API_KEY"@ && base_url_of(kind)
            == "https://openrouter.ai/api/v1"@,
{
}

/// What a file says holds, and what it leaves open is the default: a budget of four thousand tokens,
/// answers of a thousand and twenty-four, eight turns, two minutes, and the router.
pub proof fn law_files_override_defaults(raw: RawConfig)
    ensures
        raw.limits matches Some(limits) ==> {
            &&& limits.token_budget matches Some(n) ==> raw.token_budget() == n
            &&& limits.max_output_tokens matches Some(n) ==> raw.max_output_tokens() == n
            &&& limits.max_turns matches Some(n) ==> raw.max_turns() == n
            &&& limits.token_budget is None ==> raw.token_budget() == 4000
            &&& limits.max_output_tokens is None ==> raw.max_output_tokens() == 1024
            &&& limits.max_turns is None ==> raw.max_turns() == 8
        },
        raw.provider matches Some(provider) ==> {
            &&& provider.timeout_ms matches Some(n) ==> raw.timeout_ms() == n
            &&& provider.kind matches Some(kind) ==> raw.kind() == kind
            &&& provider.timeout_ms is None ==> raw.timeout_ms() == 120000
            &&& provider.kind is None ==> raw.kind() == ProviderKind::OpenRouter
        },
        raw.tools matches Some(tools) ==> (tools.enabled matches Some(names) ==> raw.enabled()
            == text::views(names@)),
{
}

/// A name is complained of exactly where it is no tool's, and it is one of the names.
pub proof fn law_unknown_tools_are_named(names: Seq<Seq<char>>)
    ensures
        first_unknown(names) is None <==> forall|i: int|
            0 <= i < names.len() ==> tool_catalog::named(#[trigger] names[i]) is Some,
        first_unknown(names) matches Some(name) ==> names.contains(name) && tool_catalog::named(name)
            is None,
    decreases names.len(),
{
    if names.len() > 0 {
        let rest = names.drop_first();
        law_unknown_tools_are_named(rest);
        assert(names[0] == names[0]);
        if tool_catalog::named(names[0]) is Some {
            if let Some(name) = first_unknown(rest) {
                let i = choose|i: int| 0 <= i < rest.len() && rest[i] == name;
                assert(names[i + 1] == name);
            } else {
                assert forall|i: int| 0 <= i < names.len() implies tool_catalog::named(
                    #[trigger] names[i],
                ) is Some by {
                    if i > 0 {
                        assert(tool_catalog::named(rest[i - 1]) is Some);
                    }
                }
            }
        }
    }
}

/// A file is taken exactly where all its limits are positive, and it enables tools, all of which there
/// are.
pub proof fn law_only_sound_files_are_taken(raw: RawConfig)
    ensures
        raw.complaint() is None <==> raw.token_budget() > 0 && raw.max_output_tokens() > 0
            && raw.max_turns() > 0 && raw.timeout_ms() > 0 && raw.enabled().len() > 0 && forall|
            i: int,
        |
            0 <= i < raw.enabled().len() ==> tool_catalog::named(#[trigger] raw.enabled()[i])
                is Some,
{
    law_unknown_tools_are_named(raw.enabled());
}

/// A tilde stands for the home directory where a path begins with it, alone or before a slash; other
/// paths stay as they are, and without a home there is no such path.
pub proof fn law_tildes_stand_for_home(path: Seq<char>, rest: Seq<char>, home: Seq<char>)
    ensures
        tilde_expanded("~"@, Some(home)) == Some(home),
        tilde_expanded("~/"@ + rest, Some(home)) == Some(paths::joined_path(home, rest)),
        tilde_expanded("~/"@ + rest, None) is None,
        tilde_expanded("~"@, None) is None,
        path.len() == 0 || path[0] != '~' ==> tilde_expanded(path, Some(home)) == Some(path)
            && tilde_expanded(path, None) == Some(path),
{
    reveal_strlit("~");
    reveal_strlit("~/");
    let full = "~/"@ + rest;
    assert(full.take(2) =~= "~/"@);
    assert(full.skip(2) =~= rest);
    assert(full[1] == '/');
    assert(full.len() >= 2 && "~"@.len() == 1);
    if text::starts_with(path, "~/"@) {
        assert(path.take(2)[0] == path[0]);
    }
}

/// The configuration of a workspace is its own file, and that of a user lies in the home directory; one
/// that is named is taken from the workspace, unless it is absolute.
pub proof fn law_configurations_have_their_places(
    root: Seq<char>,
    path: Seq<char>,
    home: Seq<char>,
)
    requires
        root.len() > 0,
        root.last() != '/',
        home.len() > 0,
        home.last() != '/',
        path.len() > 0,
        path[0] != '~',
    ensures
        workspace_config(root) == root + "/"@ + "plato.toml"@,
        user_config(home) == home + "/"@ + ".config"@ + "/"@ + "plato"@ + "/"@ + "config.toml"@,
        path[0] != '/' ==> named_config(root, path, Some(home)) == Some(root + "/"@ + path),
        path[0] == '/' ==> named_config(root, path, Some(home)) == Some(path),
{
    law_tildes_stand_for_home(path, path, home);
    reveal_strlit("plato.toml");
    reveal_strlit(".config");
    reveal_strlit("plato");
    reveal_strlit("config.toml");
    let first = home + "/"@ + ".config"@;
    assert(first.last() == 'g');
    let second = first + "/"@ + "plato"@;
    assert(second.last() == 'o');
}

} // verus!
