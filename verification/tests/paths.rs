//! Names and places of workspaces.
use plato_agent::paths::{
    components, default_lock_path, default_socket_path, default_sqlite_path, join_path,
    local_app_data, path_escapes, path_lies_in, runtime_home_and_fallback, slug, state_home,
    windows_pipe_path, windows_workspace_id, workspace_id_from_canonical_path,
};
use plato_agent::AppError;

#[test]
fn workspace_id_uses_slug_and_hash16() {
    let id = workspace_id_from_canonical_path("/tmp/Platonic Workspace");

    assert!(id.starts_with("platonic-workspace-"));
    assert_eq!(id.rsplit_once('-').unwrap().1.len(), 16);
}

#[test]
fn identities_hash_the_whole_path() {
    // The first eight bytes of the SHA-256 digest of the path.
    assert_eq!(
        workspace_id_from_canonical_path("/"),
        "workspace-8a5edab282632443"
    );
    assert_ne!(
        workspace_id_from_canonical_path("/a/work"),
        workspace_id_from_canonical_path("/b/work")
    );
}

#[test]
fn slugs_keep_letters_and_digits() {
    assert_eq!(slug("My  Project_2"), "my-project-2");
    assert_eq!(slug("--a--"), "a");
    assert_eq!(slug("\u{c4}rger"), "rger");
    assert_eq!(slug("!!"), "workspace");
    assert_eq!(slug(""), "workspace");
    assert_eq!(slug("\u{212a}elvin"), "kelvin");
}

#[test]
fn a_slug_is_its_own_slug() {
    for value in ["My  Project_2", "--a--", "\u{c4}rger", "!!", "a.B.c"] {
        let once = slug(value);
        assert_eq!(slug(&once), once);
        assert!(once
            .chars()
            .all(|c| c.is_ascii_lowercase() || c.is_ascii_digit() || c == '-'));
        assert!(!once.contains("--") && !once.starts_with('-') && !once.ends_with('-'));
    }
}

#[test]
fn default_sqlite_path_uses_workspace_directory() {
    let path = default_sqlite_path("/state", &workspace_id_from_canonical_path("/tmp/work"));
    let parts = components(&path);

    assert!(parts.iter().any(|component| component == "plato-agent"));
    assert!(parts.iter().any(|component| component == "workspaces"));
    assert_eq!(parts.last().unwrap(), "agent.db");
}

#[test]
fn default_socket_and_lock_paths_use_workspace_directory() {
    let id = workspace_id_from_canonical_path("/tmp/work");
    let socket_path = default_socket_path("/run", &id);
    let lock_path = default_lock_path("/run", &id);
    let socket = components(&socket_path);
    let lock = components(&lock_path);

    assert!(socket.iter().any(|component| component == "plato-agent"));
    assert!(socket.iter().any(|component| component == "workspaces"));
    assert_eq!(socket.last().unwrap(), "agent.sock");
    assert_eq!(lock.last().unwrap(), "agent.lock");
    assert_eq!(socket[..socket.len() - 1], lock[..lock.len() - 1]);
    assert_eq!(
        socket_path,
        format!("/run/plato-agent/workspaces/{id}/agent.sock")
    );
}

#[test]
fn fallback_runtime_home_uses_numeric_uid_under_temp_root() {
    assert_eq!(
        runtime_home_and_fallback(&None, "/tmp/root", 1000),
        ("/tmp/root/plato-agent-1000".into(), true)
    );
    assert_eq!(
        runtime_home_and_fallback(&Some("".into()), "/tmp/root", 7),
        ("/tmp/root/plato-agent-7".into(), true)
    );
    assert_eq!(
        runtime_home_and_fallback(&Some("/run/user/7".into()), "/tmp/root", 7),
        ("/run/user/7".into(), false)
    );
}

#[test]
fn state_is_kept_where_the_environment_says() {
    assert_eq!(
        state_home(&Some("/state".into()), &None),
        Ok("/state".into())
    );
    assert_eq!(
        state_home(&Some("".into()), &Some("/home/me".into())),
        Ok("/home/me/.local/state".into())
    );
    assert_eq!(
        state_home(&None, &None),
        Err(AppError::Config(
            "HOME is required for default --db path".into()
        ))
    );
}

fn wide(text: &str) -> Vec<u16> {
    text.encode_utf16().collect()
}

#[test]
fn windows_paths_use_local_app_data_and_workspace_pipe() {
    let id = windows_workspace_id(&Some("work".into()), &wide("C:\\work"));

    assert_eq!(
        windows_pipe_path(&id),
        format!(r"\\.\pipe\plato-agent-{id}")
    );
    assert_eq!(
        local_app_data(
            &Some("C:\\Users\\me\\AppData\\Local".into()),
            "default --db path"
        ),
        Ok("C:\\Users\\me\\AppData\\Local".into())
    );
    assert!(id.starts_with("work-"));
    assert_eq!(id.len(), 21);
}

#[test]
fn windows_pipe_endpoint_is_bounded_for_long_workspace_names() {
    let name = "workspace-".repeat(20);
    let id = windows_workspace_id(&Some(name.clone()), &wide(&format!("C:\\{name}")));
    let endpoint = windows_pipe_path(&id);

    assert_eq!(endpoint, format!(r"\\.\pipe\plato-agent-{id}"));
    assert!(endpoint.encode_utf16().count() <= 102);
    assert!(id.len() <= 81);
    assert_eq!(id.len(), 81);
}

#[test]
fn windows_paths_require_local_app_data() {
    let error = local_app_data(&None, "default daemon runtime path").unwrap_err();

    assert!(error.message().contains("LOCALAPPDATA"));
    assert_eq!(
        local_app_data(&Some("".into()), "default daemon runtime path"),
        Err(AppError::Config(
            "LOCALAPPDATA is required for default daemon runtime path".into()
        ))
    );
}

#[test]
fn windows_identities_hash_little_endian_units() {
    // The first eight bytes of the SHA-256 digest of 61 00.
    assert_eq!(
        windows_workspace_id(&None, &wide("a")),
        "workspace-ffe9aaeaa2a2d504"
    );
}

#[test]
fn paths_are_joined_and_compared_by_their_parts() {
    assert_eq!(join_path("/a", "b"), "/a/b");
    assert_eq!(join_path("/a/", "b"), "/a/b");
    assert_eq!(join_path("/a", "/b"), "/b");
    assert!(path_lies_in("/a/b", "/a"));
    assert!(path_lies_in("/a", "/a"));
    assert!(!path_lies_in("/ab", "/a"));
    assert!(path_escapes("a/../b"));
    assert!(!path_escapes("a..b/c"));
}
