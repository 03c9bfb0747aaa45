use magnet::command::RuntimeSettings;
use magnet::dependency::{DetectAction, NpmHandler, ResourceHandler, Target, UVHandler};

fn blank() -> RuntimeSettings {
    RuntimeSettings {
        node_path: String::new(),
        use_system_node: false,
        uv_path: String::new(),
        use_system_uv: false,
    }
}

#[test]
fn detection_probes_without_an_existing_stored_path() {
    let mut st = blank();
    assert_eq!(NpmHandler::detect_step(&st, true), DetectAction::Probe);
    st.node_path = "/usr/bin/node".to_string();
    assert_eq!(NpmHandler::detect_step(&st, false), DetectAction::Probe);
    assert_eq!(NpmHandler::detect_step(&st, true), DetectAction::Found);
    assert_eq!(UVHandler::detect_step(&st, true), DetectAction::Probe);
}

#[test]
fn recording_sets_path_and_flag() {
    let mut st = blank();
    NpmHandler::record_system(&mut st, "/usr/bin/node".to_string());
    assert_eq!(st.node_path, "/usr/bin/node");
    assert!(st.use_system_node);
    UVHandler::record_private(&mut st, "/home/u/.uv/bin/uv-x".to_string());
    assert_eq!(st.uv_path, "/home/u/.uv/bin/uv-x");
    assert!(!st.use_system_uv);
    assert!(st.use_system_node);
    NpmHandler::record_private(&mut st, "/home/u/.node".to_string());
    assert!(!st.use_system_node);
    UVHandler::record_system(&mut st, "/usr/bin/uv".to_string());
    assert!(st.use_system_uv);
}

#[test]
fn download_locations() {
    assert_eq!(
        NpmHandler::download_url(Target::MacArm64),
        "https://nodejs.org/dist/v22.11.0/node-v22.11.0-darwin-arm64.tar.gz"
    );
    assert_eq!(
        UVHandler::download_url(Target::WindowsX64).unwrap(),
        "https://github.com/astral-sh/uv/releases/download/0.5.5/uv-x86_64-pc-windows-msvc.zip"
    );
    assert!(UVHandler::download_url(Target::WindowsArm64).is_none());
    assert_eq!(
        ResourceHandler::servers_url(),
        "https://file.magnetlabs.xyz/server-configuration/servers-v0.1.json"
    );
}

#[test]
fn install_locations() {
    let home = "/home/u".to_string();
    assert_eq!(NpmHandler::install_dir(Target::MacX64, &home), "/home/u/.node");
    assert_eq!(UVHandler::install_dir(Target::MacX64, &home), "/home/u/.uv/bin");
    assert_eq!(NpmHandler::install_dir(Target::WindowsX86, &"C:\\Users\\u".to_string()), "C:\\Users\\u\\AppData\\Local\\node");
    assert_eq!(
        UVHandler::installed_location(Target::MacArm64, &"/home/u/.uv/bin".to_string()).unwrap(),
        "/home/u/.uv/bin/uv-aarch64-apple-darwin/uv"
    );
    assert_eq!(
        UVHandler::installed_location(Target::WindowsX64, &"C:\\uv\\bin".to_string()).unwrap(),
        "C:\\uv\\bin\\uv.exe"
    );
    assert_eq!(
        NpmHandler::installed_location(Target::MacArm64, &"/home/u/.node".to_string()),
        "/home/u/.node/node-v22.11.0-darwin-arm64/bin/node"
    );
    assert_eq!(
        NpmHandler::installed_location(Target::WindowsX64, &"C:\\node".to_string()),
        "C:\\node\\node-v22.11.0-win-x64\\node.exe"
    );
    assert!(UVHandler::installed_location(Target::WindowsArm64, &home).is_none());
}
