//! The decisions of runtime provisioning: where each runtime is downloaded
//! from and unpacked to, and what is recorded once it is found or installed.
//! Probing the system, downloading and unpacking are left to the caller.

use vstd::prelude::*;
use vstd::string::*;

use crate::command::RuntimeSettings;
use crate::text::Platform;

verus! {

/// Provisioning of the Node.js interpreter, which runs `npx` servers.
pub struct NpmHandler;

/// Provisioning of the `uv` package runner, which runs `uvx` servers.
pub struct UVHandler;

/// Provisioning of the server catalog.
pub struct ResourceHandler;

/// Whether each dependency is available.
#[derive(Clone, Copy, Debug, PartialEq, Eq, Structural)]
pub struct DependencyStatus {
    pub uv: bool,
    pub node: bool,
    pub servers: bool,
}

/// The machines that runtimes are provisioned for.
#[derive(Clone, Copy, Debug, PartialEq, Eq, Structural)]
pub enum Target {
    MacArm64,
    MacX64,
    WindowsX64,
    WindowsX86,
    WindowsArm64,
}

pub open spec fn target_platform(t: Target) -> Platform {
    match t {
        Target::MacArm64 | Target::MacX64 => Platform::Unix,
        _ => Platform::Windows,
    }
}

impl Target {
    /// The shell that launch commands are written for on this machine.
    pub fn platform(self) -> (r: Platform)
        ensures
            r == target_platform(self),
    {
        match self {
            Target::MacArm64 | Target::MacX64 => Platform::Unix,
            _ => Platform::Windows,
        }
    }
}

/// What detection does next.
#[derive(Clone, Copy, Debug, PartialEq, Eq, Structural)]
pub enum DetectAction {
    /// The stored location exists: the runtime is available as recorded.
    Found,
    /// Ask the system's shell where the runtime is.
    Probe,
}

/// Detection trusts a stored location only where it is non-empty and exists.
pub open spec fn detect_action(stored: Seq<char>, exists: bool) -> DetectAction {
    if stored.len() > 0 && exists {
        DetectAction::Found
    } else {
        DetectAction::Probe
    }
}

fn decide_detect(stored: &String, exists: bool) -> (r: DetectAction)
    ensures
        r == detect_action(stored@, exists),
{
    if stored.as_str().unicode_len() > 0 && exists {
        DetectAction::Found
    } else {
        DetectAction::Probe
    }
}

fn concat(a: &str, b: &str) -> (r: String)
    ensures
        r@ == a@ + b@,
{
    let mut r = String::from_str(a);
    r.append(b);
    r
}

pub open spec fn node_archive(t: Target) -> Seq<char> {
    match t {
        Target::MacArm64 => "darwin-arm64.tar.gz"@,
        Target::MacX64 => "darwin-x64.tar.gz"@,
        Target::WindowsX64 => "win-x64.zip"@,
        Target::WindowsX86 => "win-x86.zip"@,
        Target::WindowsArm64 => "win-arm64.zip"@,
    }
}

/// The folder that the Node.js archive for a machine unpacks to, after its
/// `node-v22.11.0-` prefix.
pub open spec fn node_folder(t: Target) -> Seq<char> {
    match t {
        Target::MacArm64 => "darwin-arm64"@,
        Target::MacX64 => "darwin-x64"@,
        Target::WindowsX64 => "win-x64"@,
        Target::WindowsX86 => "win-x86"@,
        Target::WindowsArm64 => "win-arm64"@,
    }
}

/// The release archive of `uv` for a machine, and the directory it unpacks
/// to; `uv` publishes none for Windows on ARM.
pub open spec fn uv_archive(t: Target) -> Option<(Seq<char>, Seq<char>)> {
    match t {
        Target::MacArm64 => Some(("aarch64-apple-darwin.tar.gz"@, "aarch64-apple-darwin"@)),
        Target::MacX64 => Some(("x86_64-apple-darwin.tar.gz"@, "x86_64-apple-darwin"@)),
        Target::WindowsX64 => Some(("x86_64-pc-windows-msvc.zip"@, "x86_64-pc-windows-msvc"@)),
        Target::WindowsX86 => Some(("i686-pc-windows-msvc.zip"@, "i686-pc-windows-msvc"@)),
        Target::WindowsArm64 => None,
    }
}

impl NpmHandler {
    /// The next step of detecting Node.js from its stored location.
    pub fn detect_step(settings: &RuntimeSettings, path_exists: bool) -> (r: DetectAction)
        ensures
            r == detect_action(settings.node_path@, path_exists),
    {
        decide_detect(&settings.node_path, path_exists)
    }

    /// Records Node.js as found on the system at `found`.
    pub fn record_system(settings: &mut RuntimeSettings, found: String)
        ensures
            final(settings).node_path@ == found@,
            final(settings).use_system_node,
            final(settings).uv_path == old(settings).uv_path,
            final(settings).use_system_uv == old(settings).use_system_uv,
    {
        settings.node_path = found;
        settings.use_system_node = true;
    }

    /// Records Node.js as privately installed, its binary at `location`.
    pub fn record_private(settings: &mut RuntimeSettings, location: String)
        ensures
            final(settings).node_path@ == location@,
            !final(settings).use_system_node,
            final(settings).uv_path == old(settings).uv_path,
            final(settings).use_system_uv == old(settings).use_system_uv,
    {
        settings.node_path = location;
        settings.use_system_node = false;
    }

    /// The path of the Node.js binary once its archive is unpacked into
    /// `dir`: the archive holds one folder named after the release.
    pub fn installed_location(target: Target, dir: &String) -> (r: String)
        ensures
            r@ == match target_platform(target) {
                Platform::Unix => dir@ + "/node-v22.11.0-"@ + node_folder(target) + "/bin/node"@,
                Platform::Windows => dir@ + "\\node-v22.11.0-"@ + node_folder(target) + "\\node.exe"@,
            },
    {
        let folder = match target {
            Target::MacArm64 => "darwin-arm64",
            Target::MacX64 => "darwin-x64",
            Target::WindowsX64 => "win-x64",
            Target::WindowsX86 => "win-x86",
            Target::WindowsArm64 => "win-arm64",
        };
        match target.platform() {
            Platform::Unix => {
                let mut r = concat(dir.as_str(), "/node-v22.11.0-");
                r.append(folder);
                r.append("/bin/node");
                r
            },
            Platform::Windows => {
                let mut r = concat(dir.as_str(), "\\node-v22.11.0-");
                r.append(folder);
                r.append("\\node.exe");
                r
            },
        }
    }

    /// Where the Node.js release for a machine is downloaded from.
    pub fn download_url(target: Target) -> (r: String)
        ensures
            r@ == "https://nodejs.org/dist/v22.11.0/node-v22.11.0-"@ + node_archive(target),
    {
        let archive = match target {
            Target::MacArm64 => "darwin-arm64.tar.gz",
            Target::MacX64 => "darwin-x64.tar.gz",
            Target::WindowsX64 => "win-x64.zip",
            Target::WindowsX86 => "win-x86.zip",
            Target::WindowsArm64 => "win-arm64.zip",
        };
        concat("https://nodejs.org/dist/v22.11.0/node-v22.11.0-", archive)
    }

    /// The directory under the home directory that Node.js is unpacked into.
    pub fn install_dir(target: Target, home: &String) -> (r: String)
        ensures
            r@ == home@ + match target_platform(target) {
                Platform::Unix => "/.node"@,
                Platform::Windows => "\\AppData\\Local\\node"@,
            },
    {
        match target.platform() {
            Platform::Unix => concat(home.as_str(), "/.node"),
            Platform::Windows => concat(home.as_str(), "\\AppData\\Local\\node"),
        }
    }
}

impl UVHandler {
    /// The next step of detecting `uv` from its stored location.
    pub fn detect_step(settings: &RuntimeSettings, path_exists: bool) -> (r: DetectAction)
        ensures
            r == detect_action(settings.uv_path@, path_exists),
    {
        decide_detect(&settings.uv_path, path_exists)
    }

    /// Records `uv` as found on the system at `found`.
    pub fn record_system(settings: &mut RuntimeSettings, found: String)
        ensures
            final(settings).uv_path@ == found@,
            final(settings).use_system_uv,
            final(settings).node_path == old(settings).node_path,
            final(settings).use_system_node == old(settings).use_system_node,
    {
        settings.uv_path = found;
        settings.use_system_uv = true;
    }

    /// Records `uv` as privately installed at `location`.
    pub fn record_private(settings: &mut RuntimeSettings, location: String)
        ensures
            final(settings).uv_path@ == location@,
            !final(settings).use_system_uv,
            final(settings).node_path == old(settings).node_path,
            final(settings).use_system_node == old(settings).use_system_node,
    {
        settings.uv_path = location;
        settings.use_system_uv = false;
    }

    /// Where the `uv` release for a machine is downloaded from, if there is one.
    pub fn download_url(target: Target) -> (r: Option<String>)
        ensures
            match uv_archive(target) {
                Some(a) => r is Some && r->0@ == "https://github.com/astral-sh/uv/releases/download/0.5.5/uv-"@ + a.0,
                None => r is None,
            },
    {
        let archive = match target {
            Target::MacArm64 => "aarch64-apple-darwin.tar.gz",
            Target::MacX64 => "x86_64-apple-darwin.tar.gz",
            Target::WindowsX64 => "x86_64-pc-windows-msvc.zip",
            Target::WindowsX86 => "i686-pc-windows-msvc.zip",
            Target::WindowsArm64 => {
                return None;
            },
        };
        Some(concat("https://github.com/astral-sh/uv/releases/download/0.5.5/uv-", archive))
    }

    /// The directory under the home directory that `uv` is unpacked into.
    pub fn install_dir(target: Target, home: &String) -> (r: String)
        ensures
            r@ == home@ + match target_platform(target) {
                Platform::Unix => "/.uv/bin"@,
                Platform::Windows => "\\AppData\\Local\\uv\\bin"@,
            },
    {
        match target.platform() {
            Platform::Unix => concat(home.as_str(), "/.uv/bin"),
            Platform::Windows => concat(home.as_str(), "\\AppData\\Local\\uv\\bin"),
        }
    }

    /// The path of the `uv` binary once its archive is unpacked into `dir`:
    /// the macOS archives hold a folder, the Windows ones the binary itself.
    pub fn installed_location(target: Target, dir: &String) -> (r: Option<String>)
        ensures
            match uv_archive(target) {
                Some(a) => r is Some && r->0@ == match target_platform(target) {
                    Platform::Unix => dir@ + "/uv-"@ + a.1 + "/uv"@,
                    Platform::Windows => dir@ + "\\uv.exe"@,
                },
                None => r is None,
            },
    {
        let unpacked = match target {
            Target::MacArm64 => "aarch64-apple-darwin",
            Target::MacX64 => "x86_64-apple-darwin",
            Target::WindowsX64 | Target::WindowsX86 => {
                return Some(concat(dir.as_str(), "\\uv.exe"));
            },
            Target::WindowsArm64 => {
                return None;
            },
        };
        let mut r = concat(dir.as_str(), "/uv-");
        r.append(unpacked);
        r.append("/uv");
        Some(r)
    }
}

impl ResourceHandler {
    /// Where the server catalog is downloaded from.
    pub fn servers_url() -> (r: String)
        ensures
            r@ == "https://file.magnetlabs.xyz/server-configuration/servers-v0.1.json"@,
    {
        String::from_str("https://file.magnetlabs.xyz/server-configuration/servers-v0.1.json")
    }
}

} // verus!
