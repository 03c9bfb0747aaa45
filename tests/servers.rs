use magnet::command::{derive_launch, directory_of, RuntimeSettings};
use magnet::model::{
    ArgClass, ArgumentMultiplicity, BackendServer, BaseServer, ClientConfig, InputArg,
    SystemCommandInfo,
};
use magnet::servers::{
    install_server_function, load_all_frontend_servers, load_all_installed_frontend_servers,
    uninstall_server_function, update_server_function, ServerError,
};
use magnet::text::{join, quote_words, restore_env_newlines, restore_newlines, Platform};

fn s(x: &str) -> String {
    x.to_string()
}

fn entry(id: &str, command: &str, args: &[&str], env: &[(&str, &str)]) -> BackendServer {
    BackendServer {
        base: BaseServer {
            id: s(id),
            title: s("Title"),
            description: s("Description"),
            creator: s("someone"),
            tags: vec![s("tag")],
            logo_url: s("logo.png"),
            rating: 4,
            publish_date: s("2024-12-01"),
        },
        command_info: SystemCommandInfo {
            command: s(command),
            args: args.iter().map(|a| s(a)).collect(),
            input_arg: InputArg {
                name: s("path"),
                description: s("a path"),
                class: ArgClass::DirectoryPath,
                multiplicity: ArgumentMultiplicity::Multiple,
                value: vec![],
            },
            env: env.iter().map(|(k, v)| (s(k), s(v))).collect(),
            guide: s("guide"),
        },
    }
}

fn settings(use_system: bool) -> RuntimeSettings {
    RuntimeSettings {
        node_path: s("/home/u/.node/bin/node"),
        use_system_node: use_system,
        uv_path: s("/home/u/.uv/bin/uv"),
        use_system_uv: use_system,
    }
}

fn empty_config() -> ClientConfig {
    ClientConfig { mcp_servers: vec![], other_fields: vec![] }
}

fn record<'a>(c: &'a ClientConfig, id: &str) -> Vec<&'a magnet::model::ClientServerConfig> {
    c.mcp_servers.iter().filter(|(k, _)| k == id).map(|(_, r)| r).collect()
}

#[test]
fn private_uv_install_wraps_command_in_sh() {
    let catalog = vec![entry("weather", "uvx", &["run"], &[])];
    let mut config = empty_config();
    let r = install_server_function(Platform::Unix, &settings(false), &catalog, &mut config, "weather", None, None);
    assert_eq!(r, Ok(()));
    let recs = record(&config, "weather");
    assert_eq!(recs.len(), 1);
    assert_eq!(recs[0].command, "sh");
    assert_eq!(recs[0].args, vec![s("-c"), s("PATH=\"/home/u/.uv/bin:$PATH\" uvx run ")]);
    assert_eq!(recs[0].command_creator, "Magnet");
}

#[test]
fn private_npx_install_on_windows_uses_cmd() {
    let catalog = vec![entry("fs", "npx", &["-y", "server-fs"], &[])];
    let mut config = empty_config();
    let r = install_server_function(Platform::Windows, &settings(false), &catalog, &mut config, "fs", None, None);
    assert_eq!(r, Ok(()));
    let recs = record(&config, "fs");
    assert_eq!(recs[0].command, "cmd");
    assert_eq!(
        recs[0].args,
        vec![s("/c"), s("set PATH=/home/u/.node/bin;%PATH% && npx -y server-fs ")]
    );
}

#[test]
fn system_runtime_keeps_catalog_command() {
    let catalog = vec![entry("weather", "uvx", &["run"], &[])];
    let mut config = empty_config();
    install_server_function(Platform::Unix, &settings(true), &catalog, &mut config, "weather", None, Some(vec![s("x y")]))
        .unwrap();
    let recs = record(&config, "weather");
    assert_eq!(recs[0].command, "uvx");
    assert_eq!(recs[0].args, vec![s("run")]);
    assert_eq!(recs[0].input_arg.value, vec![s("x y")]);
}

#[test]
fn other_program_keeps_catalog_command() {
    let catalog = vec![entry("docker", "docker", &["run", "img"], &[("K", "V")])];
    let mut config = empty_config();
    install_server_function(Platform::Unix, &settings(false), &catalog, &mut config, "docker", None, None).unwrap();
    let recs = record(&config, "docker");
    assert_eq!(recs[0].command, "docker");
    assert_eq!(recs[0].args, vec![s("run"), s("img")]);
    assert_eq!(recs[0].env, vec![(s("K"), s("V"))]);
}

#[test]
fn install_unknown_identifier_is_not_found() {
    let catalog = vec![entry("weather", "uvx", &["run"], &[])];
    let mut config = empty_config();
    let r = install_server_function(Platform::Unix, &settings(false), &catalog, &mut config, "nope", None, None);
    assert_eq!(r, Err(ServerError::NotFound));
    assert!(config.mcp_servers.is_empty());
}

#[test]
fn install_twice_keeps_one_record_of_second_call() {
    let catalog = vec![entry("weather", "uvx", &["run"], &[])];
    let mut config = empty_config();
    let e1 = vec![(s("A"), s("1"))];
    let e2 = vec![(s("B"), s("2"))];
    install_server_function(Platform::Unix, &settings(false), &catalog, &mut config, "weather", Some(e1), None).unwrap();
    install_server_function(Platform::Unix, &settings(false), &catalog, &mut config, "weather", Some(e2), None).unwrap();
    let recs = record(&config, "weather");
    assert_eq!(recs.len(), 1);
    assert_eq!(recs[0].env, vec![(s("B"), s("2"))]);
}

#[test]
fn uninstall_absent_is_success_and_no_change() {
    let catalog = vec![entry("weather", "uvx", &["run"], &[])];
    let mut config = empty_config();
    install_server_function(Platform::Unix, &settings(false), &catalog, &mut config, "weather", None, None).unwrap();
    assert!(uninstall_server_function(&mut config, "other"));
    assert_eq!(config.mcp_servers.len(), 1);
    assert_eq!(config.mcp_servers[0].0, "weather");
    assert!(uninstall_server_function(&mut config, "weather"));
    assert!(config.mcp_servers.is_empty());
    assert!(uninstall_server_function(&mut config, "weather"));
    assert!(config.mcp_servers.is_empty());
}

#[test]
fn update_equals_uninstall_then_install() {
    let catalog = vec![entry("weather", "uvx", &["run"], &[]), entry("fs", "npx", &["fs"], &[])];
    let env = Some(vec![(s("TOKEN"), s("abc"))]);
    let vals = Some(vec![s("/tmp/a b")]);
    let mut a = empty_config();
    let mut b = empty_config();
    for c in [&mut a, &mut b] {
        install_server_function(Platform::Unix, &settings(false), &catalog, c, "weather", None, None).unwrap();
        install_server_function(Platform::Unix, &settings(false), &catalog, c, "fs", None, None).unwrap();
    }
    update_server_function(Platform::Unix, &settings(false), &catalog, &mut a, "weather", env.clone(), vals.clone()).unwrap();
    uninstall_server_function(&mut b, "weather");
    install_server_function(Platform::Unix, &settings(false), &catalog, &mut b, "weather", env, vals).unwrap();
    assert_eq!(a.mcp_servers.len(), b.mcp_servers.len());
    for (x, y) in a.mcp_servers.iter().zip(b.mcp_servers.iter()) {
        assert_eq!(x.0, y.0);
        assert_eq!(x.1.command, y.1.command);
        assert_eq!(x.1.args, y.1.args);
        assert_eq!(x.1.env, y.1.env);
        assert_eq!(x.1.input_arg.value, y.1.input_arg.value);
    }
    let recs = record(&a, "weather");
    assert_eq!(recs[0].args[1], "PATH=\"/home/u/.uv/bin:$PATH\" uvx run '/tmp/a b'");
}

#[test]
fn update_not_installed_installs() {
    let catalog = vec![entry("weather", "uvx", &["run"], &[])];
    let mut config = empty_config();
    update_server_function(Platform::Unix, &settings(true), &catalog, &mut config, "weather", None, None).unwrap();
    assert_eq!(record(&config, "weather").len(), 1);
}

#[test]
fn update_of_identifier_missing_from_catalog_changes_nothing() {
    let catalog = vec![entry("weather", "uvx", &["run"], &[])];
    let mut config = empty_config();
    install_server_function(Platform::Unix, &settings(true), &catalog, &mut config, "weather", None, None).unwrap();
    let r = update_server_function(Platform::Unix, &settings(true), &vec![], &mut config, "weather", None, None);
    assert_eq!(r, Err(ServerError::NotFound));
    assert_eq!(config.mcp_servers.len(), 1);
    assert_eq!(config.mcp_servers[0].0, "weather");
    assert_eq!(config.mcp_servers[0].1.command, "uvx");
}

#[test]
fn catalog_default_values_are_not_appended() {
    let mut b = entry("weather", "uvx", &["run"], &[]);
    b.command_info.input_arg.value = vec![s("x")];
    let catalog = vec![b];
    let mut config = empty_config();
    install_server_function(Platform::Unix, &settings(false), &catalog, &mut config, "weather", None, None).unwrap();
    let recs = record(&config, "weather");
    assert_eq!(recs[0].args[1], "PATH=\"/home/u/.uv/bin:$PATH\" uvx run ");
    assert_eq!(recs[0].input_arg.value, vec![s("x")]);
}

#[test]
fn private_uv_install_on_windows_prepends_directory() {
    let catalog = vec![entry("weather", "uvx", &["run"], &[])];
    let mut st = settings(false);
    st.uv_path = s("C:\\u\\uv");
    let mut config = empty_config();
    install_server_function(Platform::Windows, &st, &catalog, &mut config, "weather", None, Some(vec![s("a&b"), s("c d")]))
        .unwrap();
    let recs = record(&config, "weather");
    assert_eq!(recs[0].command, "cmd");
    assert_eq!(recs[0].args, vec![s("/c"), s("set PATH=C:\\u;%PATH% && uvx run a^&b \"c d\"")]);
}

#[test]
fn projection_follows_install_and_uninstall() {
    let catalog = vec![
        entry("weather", "uvx", &["run"], &[("DEFAULT", "d")]),
        entry("fs", "npx", &["fs"], &[]),
    ];
    let mut config = empty_config();
    let e = vec![(s("KEY"), s("v"))];
    install_server_function(Platform::Unix, &settings(false), &catalog, &mut config, "weather", Some(e.clone()), Some(vec![s("x")]))
        .unwrap();
    let all = load_all_frontend_servers(&catalog, &config);
    assert_eq!(all.len(), 2);
    assert_eq!(all[0].base.id, "weather");
    assert!(all[0].is_installed);
    assert_eq!(all[0].env, e);
    assert_eq!(all[0].input_arg.value, vec![s("x")]);
    assert_eq!(all[0].args, vec![s("run")]);
    assert!(!all[1].is_installed);
    let installed = load_all_installed_frontend_servers(&catalog, &config);
    assert_eq!(installed.len(), 1);
    assert_eq!(installed[0].base.id, "weather");
    uninstall_server_function(&mut config, "weather");
    let all = load_all_frontend_servers(&catalog, &config);
    assert!(!all[0].is_installed);
    assert_eq!(all[0].env, vec![(s("DEFAULT"), s("d"))]);
    assert!(all[0].input_arg.value.is_empty());
    assert!(load_all_installed_frontend_servers(&catalog, &config).is_empty());
}

#[test]
fn passthrough_fields_survive_transactions() {
    let catalog = vec![entry("weather", "uvx", &["run"], &[])];
    let mut config = empty_config();
    config.other_fields.push((s("globalShortcut"), serde_json::Value::String(s("Ctrl+Space"))));
    config.other_fields.push((s("n"), serde_json::Value::from(3)));
    install_server_function(Platform::Unix, &settings(false), &catalog, &mut config, "weather", None, None).unwrap();
    update_server_function(Platform::Unix, &settings(false), &catalog, &mut config, "weather", None, None).unwrap();
    uninstall_server_function(&mut config, "weather");
    assert_eq!(config.other_fields.len(), 2);
    assert_eq!(config.other_fields[0].0, "globalShortcut");
    assert_eq!(config.other_fields[0].1, serde_json::Value::String(s("Ctrl+Space")));
    assert_eq!(config.other_fields[1].1, serde_json::Value::from(3));
}

#[test]
fn input_value_with_metacharacters_is_one_quoted_word() {
    let catalog = vec![entry("weather", "uvx", &["run"], &[])];
    let mut config = empty_config();
    let v = s("a b\"c;d");
    install_server_function(Platform::Unix, &settings(false), &catalog, &mut config, "weather", None, Some(vec![v, s("it's")]))
        .unwrap();
    let recs = record(&config, "weather");
    assert_eq!(recs[0].args[1], "PATH=\"/home/u/.uv/bin:$PATH\" uvx run 'a b\"c;d' 'it'\\''s'");
}

#[test]
fn quote_words_leaves_safe_values_and_quotes_others() {
    let v = vec![s("--flag=1"), s(""), s("$HOME"), s("x!")];
    assert_eq!(quote_words(Platform::Unix, &v), "--flag=1 '' '$HOME' 'x'\\!''");
    assert_eq!(quote_words(Platform::Windows, &vec![s("a b"), s("c")]), "\"a b\" c");
    assert_eq!(quote_words(Platform::Windows, &vec![s("a&b|c"), s(""), s("x>y^")]), "a^&b^|c \"\" x^>y^^");
    assert_eq!(
        quote_words(Platform::Windows, &vec![s("a b&c"), s("a\"&b")]),
        "\"a b&c\" \"a\\\"^&b\""
    );
    assert_eq!(
        quote_words(Platform::Windows, &vec![s("\\path\\my documents\\"), s("--f=\"d\"")]),
        "\"\\path\\my documents\\\\\" \"--f=\\\"d\\\"\""
    );
}

#[test]
fn join_uses_single_spaces() {
    assert_eq!(join(&vec![]), "");
    assert_eq!(join(&vec![s("a")]), "a");
    assert_eq!(join(&vec![s("a"), s("b c"), s("d")]), "a b c d");
}

#[test]
fn directory_of_strips_last_component() {
    assert_eq!(directory_of(Platform::Unix, &s("/home/u/.uv/bin/uv")), "/home/u/.uv/bin");
    assert_eq!(directory_of(Platform::Unix, &s("uv")), "uv");
    assert_eq!(directory_of(Platform::Windows, &s("C:\\tools\\node\\node.exe")), "C:\\tools\\node");
    assert_eq!(directory_of(Platform::Unix, &s("C:\\tools\\node")), "C:\\tools\\node");
}

#[test]
fn derive_launch_replaces_values_and_env() {
    let b = entry("weather", "uvx", &["run"], &[("A", "1")]);
    let r = derive_launch(Platform::Unix, &settings(false), &b, Some(vec![(s("B"), s("2"))]), Some(vec![s("v")]));
    assert_eq!(r.env, vec![(s("B"), s("2"))]);
    assert_eq!(r.input_arg.value, vec![s("v")]);
    assert_eq!(r.input_arg.name, "path");
    assert_eq!(r.args[1], "PATH=\"/home/u/.uv/bin:$PATH\" uvx run v");
}

#[test]
fn newline_sequences_become_newlines() {
    assert_eq!(restore_newlines(&s("a\\nb")), "a\nb");
    assert_eq!(restore_newlines(&s("\\\\n")), "\\\n");
    assert_eq!(restore_newlines(&s("no escapes\\")), "no escapes\\");
    let env = vec![(s("KEY"), s("-----BEGIN\\nX\\n-----END"))];
    assert_eq!(restore_env_newlines(&env), vec![(s("KEY"), s("-----BEGIN\nX\n-----END"))]);
}

#[test]
fn lookup_of_installed_records() {
    let catalog = vec![entry("weather", "uvx", &["run"], &[]), entry("fs", "npx", &["fs"], &[])];
    let mut config = empty_config();
    install_server_function(Platform::Unix, &settings(true), &catalog, &mut config, "fs", None, None).unwrap();
    install_server_function(Platform::Unix, &settings(true), &catalog, &mut config, "weather", None, None).unwrap();
    assert_eq!(config.find_server("weather"), Some(1));
    assert!(config.contains_server("fs"));
    assert!(!config.contains_server("other"));
    assert_eq!(magnet::servers::find_catalog_entry(&catalog, "fs"), Some(1));
    assert_eq!(magnet::servers::find_catalog_entry(&catalog, "x"), None);
    let entries = magnet::servers::get_client_server_config(config);
    assert_eq!(entries.len(), 2);
    assert_eq!(entries[0].0, "fs");
    assert_eq!(entries[0].1.command, "npx");
}
