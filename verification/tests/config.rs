//! Settings, and where they are looked for.
use plato_agent::config::{
    expand_leading_tilde, resolve_config_path_with, user_config_path, workspace_config_path, Config,
    LimitsConfig, ProviderConfig, ProviderKind, RawConfig, RawLimitsConfig, RawProviderConfig,
    RawToolsConfig, ToolsConfig, DEFAULT_MAX_OUTPUT_TOKENS, DEFAULT_TIMEOUT_MS,
    DEFAULT_TOKEN_BUDGET,
};
use plato_agent::AppError;

fn limits(
    token_budget: Option<u32>,
    max_output_tokens: Option<u32>,
    max_turns: Option<u32>,
) -> RawConfig {
    RawConfig {
        provider: None,
        limits: Some(RawLimitsConfig {
            token_budget,
            max_output_tokens,
            max_turns,
        }),
        tools: None,
    }
}

fn enabled(names: Vec<&str>) -> RawConfig {
    RawConfig {
        provider: None,
        limits: None,
        tools: Some(RawToolsConfig {
            enabled: Some(names.into_iter().map(String::from).collect()),
        }),
    }
}

fn provider() -> RawProviderConfig {
    RawProviderConfig {
        kind: None,
        model: None,
        api_key_env: None,
        base_url: None,
        timeout_ms: None,
        http_referer: None,
        app_title: None,
    }
}

fn with_provider(provider: RawProviderConfig) -> RawConfig {
    RawConfig {
        provider: Some(provider),
        limits: None,
        tools: None,
    }
}

#[test]
fn default_config_has_the_bootstrap_tools() {
    let config = Config::default();

    assert_eq!(config.provider.kind, ProviderKind::OpenRouter);
    assert_eq!(config.provider.model, "~openai/gpt-latest");
    assert_eq!(config.provider.api_key_env, "OPENROUTER_API_KEY");
    assert_eq!(config.provider.base_url, "https://openrouter.ai/api/v1");
    assert_eq!(config.limits.max_turns, 8);
    assert_eq!(
        config.tools.enabled,
        vec![
            "file.read",
            "file.list",
            "file.write",
            "file.edit",
            "shell.exec"
        ]
    );
}

#[test]
fn rejects_zero_token_budget() {
    let raw = limits(Some(0), None, None);

    assert!(matches!(Config::from_raw(raw), Err(AppError::Config(_))));
}

#[test]
fn rejects_zero_max_output_tokens() {
    let raw = limits(None, Some(0), None);

    assert!(matches!(Config::from_raw(raw), Err(AppError::Config(_))));
}

#[test]
fn rejects_unknown_enabled_tools() {
    let err = Config::from_raw(enabled(vec!["shell.delete"])).unwrap_err();

    assert!(matches!(
        err,
        AppError::Config(message) if message == "unknown tool in tools.enabled: shell.delete"
    ));
}

#[test]
fn rejects_zero_max_turns() {
    let raw = limits(None, None, Some(0));

    assert!(matches!(Config::from_raw(raw), Err(AppError::Config(_))));
}

#[test]
fn parses_configured_max_turns() {
    let raw = limits(None, None, Some(3));

    assert_eq!(Config::from_raw(raw).unwrap().limits.max_turns, 3);
}

#[test]
fn openrouter_defaults_to_openrouter_endpoint_and_key() {
    let mut raw = provider();
    raw.kind = Some(ProviderKind::OpenRouter);
    let config = Config::from_raw(with_provider(raw)).unwrap();

    assert_eq!(config.provider.model, "~openai/gpt-latest");
    assert_eq!(config.provider.api_key_env, "OPENROUTER_API_KEY");
    assert_eq!(config.provider.base_url, "https://openrouter.ai/api/v1");
}

#[test]
fn settings_that_are_given_are_kept() {
    let raw = RawConfig {
        provider: Some(RawProviderConfig {
            kind: Some(ProviderKind::OpenAi),
            model: Some("a-model".into()),
            api_key_env: Some("A_KEY".into()),
            base_url: Some("https://models.test/v1".into()),
            timeout_ms: Some(5),
            http_referer: Some("https://example.test".into()),
            app_title: Some("title".into()),
        }),
        limits: Some(RawLimitsConfig {
            token_budget: Some(7),
            max_output_tokens: Some(8),
            max_turns: Some(9),
        }),
        tools: Some(RawToolsConfig {
            enabled: Some(vec!["file.read".into()]),
        }),
    };

    assert_eq!(
        Config::from_raw(raw).unwrap(),
        Config {
            provider: ProviderConfig {
                kind: ProviderKind::OpenAi,
                model: "a-model".into(),
                api_key_env: "A_KEY".into(),
                base_url: "https://models.test/v1".into(),
                timeout_ms: 5,
                http_referer: Some("https://example.test".into()),
                app_title: Some("title".into()),
            },
            limits: LimitsConfig {
                token_budget: 7,
                max_output_tokens: 8,
                max_turns: 9,
            },
            tools: ToolsConfig {
                enabled: vec!["file.read".into()],
            },
        }
    );
}

#[test]
fn no_settings_are_the_default_ones() {
    let raw = RawConfig {
        provider: None,
        limits: None,
        tools: None,
    };
    let config = Config::from_raw(raw).unwrap();

    assert_eq!(config, Config::default());
    assert_eq!(config.limits.token_budget, DEFAULT_TOKEN_BUDGET);
    assert_eq!(config.limits.max_output_tokens, DEFAULT_MAX_OUTPUT_TOKENS);
    assert_eq!(config.provider.timeout_ms, DEFAULT_TIMEOUT_MS);
}

#[test]
fn explicit_config_path_wins_resolution() {
    let path = resolve_config_path_with(
        "/work",
        &Some("/work/explicit.toml".into()),
        &Some("env.toml".into()),
        &Some("/home/me".into()),
        true,
        false,
    )
    .unwrap();

    assert_eq!(path, Some("/work/explicit.toml".into()));
}

#[test]
fn plato_config_env_is_second_resolution_step() {
    let path = resolve_config_path_with(
        "/work",
        &None,
        &Some("/work/env.toml".into()),
        &Some("/home/me".into()),
        true,
        false,
    )
    .unwrap();

    assert_eq!(path, Some("/work/env.toml".into()));
}

#[test]
fn workspace_plato_toml_is_third_resolution_step() {
    let path =
        resolve_config_path_with("/work", &None, &None, &Some("/home/me".into()), true, false)
            .unwrap();

    assert_eq!(path, Some("/work/plato.toml".into()));
    assert_eq!(workspace_config_path("/work"), "/work/plato.toml");
}

#[test]
fn user_config_is_fourth_resolution_step() {
    let path =
        resolve_config_path_with("/work", &None, &None, &Some("/home/me".into()), false, true)
            .unwrap();

    assert_eq!(path, Some("/home/me/.config/plato/config.toml".into()));
    assert_eq!(
        user_config_path("/home/me"),
        "/home/me/.config/plato/config.toml"
    );
}

#[test]
fn missing_config_paths_resolve_to_built_in_defaults() {
    let path =
        resolve_config_path_with("/work", &None, &None, &Some("/home/me".into()), false, false)
            .unwrap();

    assert_eq!(path, None);
}

#[test]
fn expands_leading_tilde_for_explicit_config_paths() {
    let path = resolve_config_path_with(
        "/work",
        &Some("~/plato.toml".into()),
        &None,
        &Some("/home/me".into()),
        false,
        false,
    )
    .unwrap();

    assert_eq!(path, Some("/home/me/plato.toml".into()));
}

#[test]
fn relative_explicit_config_paths_resolve_against_workspace_root() {
    let path = resolve_config_path_with(
        "/work",
        &Some("config/plato.toml".into()),
        &None,
        &Some("/home/me".into()),
        false,
        false,
    )
    .unwrap();

    assert_eq!(path, Some("/work/config/plato.toml".into()));
}

#[test]
fn a_tilde_needs_a_home_directory() {
    assert!(matches!(
        expand_leading_tilde("~/plato.toml", &None),
        Err(AppError::Config(_))
    ));
    assert_eq!(
        expand_leading_tilde("~", &Some("/home/me".into())),
        Ok("/home/me".into())
    );
    assert_eq!(
        expand_leading_tilde("/a/~b", &None),
        Ok("/a/~b".into())
    );
}
