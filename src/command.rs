//! Deriving the launch record of a catalog entry, with runtime substitution.

use vstd::prelude::*;
use vstd::string::*;

use crate::model::{
    copy_env, copy_strings, BackendServer, BackendView, ClientServerConfig, CommandInfoView,
    EnvVars, InputArgView, ServerRecord,
};
use crate::text::{join, join_words, quote_all, quote_words, Platform};

verus! {

/// Where the two runtimes were found: each either on the system's search path
/// or privately provisioned at a stored location.
pub struct RuntimeSettings {
    pub node_path: String,
    pub use_system_node: bool,
    pub uv_path: String,
    pub use_system_uv: bool,
}

pub ghost struct SettingsView {
    pub node_path: Seq<char>,
    pub use_system_node: bool,
    pub uv_path: Seq<char>,
    pub use_system_uv: bool,
}

impl View for RuntimeSettings {
    type V = SettingsView;

    open spec fn view(&self) -> SettingsView {
        SettingsView {
            node_path: self.node_path@,
            use_system_node: self.use_system_node,
            uv_path: self.uv_path@,
            use_system_uv: self.use_system_uv,
        }
    }
}

pub open spec fn is_separator(platform: Platform, c: char) -> bool {
    c == '/' || (platform == Platform::Windows && c == '\\')
}

/// The index of the last path separator, or -1 where there is none.
pub open spec fn last_separator(platform: Platform, p: Seq<char>) -> int
    decreases p.len(),
{
    if p.len() == 0 {
        -1
    } else if is_separator(platform, p.last()) {
        p.len() - 1
    } else {
        last_separator(platform, p.drop_last())
    }
}

/// The directory of a stored tool location: everything before its last
/// separator, or the location itself where it has none.
pub open spec fn tool_dir(platform: Platform, p: Seq<char>) -> Seq<char> {
    let k = last_separator(platform, p);
    if k < 0 {
        p
    } else {
        p.subrange(0, k)
    }
}

/// The directory of a stored tool location.
pub fn directory_of(platform: Platform, p: &String) -> (r: String)
    ensures
        r@ == tool_dir(platform, p@),
{
    let s = p.as_str();
    let n = s.unicode_len();
    let mut i: usize = n;
    assert(p@.take(n as int) =~= p@);
    while i > 0
        invariant
            i <= n,
            n == p@.len(),
            s@ == p@,
            last_separator(platform, p@) == last_separator(platform, p@.take(i as int)),
        decreases i,
    {
        let c = s.get_char(i - 1);
        proof {
            assert(p@.take(i as int).drop_last() =~= p@.take(i - 1));
            assert(p@.take(i as int).last() == c);
        }
        if c == '/' || (platform == Platform::Windows && c == '\\') {
            let d = s.substring_char(0, i - 1);
            return String::from_str(d);
        }
        i = i - 1;
    }
    assert(p@.take(0) =~= Seq::<char>::empty());
    p.clone()
}

/// The stored location of the privately provisioned runtime that a program
/// name calls for, if the program is a runtime that is not used system-wide.
pub open spec fn private_runtime(settings: SettingsView, command: Seq<char>) -> Option<Seq<char>> {
    if command == "npx"@ && !settings.use_system_node {
        Some(settings.node_path)
    } else if command == "uvx"@ && !settings.use_system_uv {
        Some(settings.uv_path)
    } else {
        None
    }
}

/// The argument string of a catalog entry: its arguments and then the input
/// values that the caller supplied, each quoted as a word of its own.
pub open spec fn argument_string(
    platform: Platform,
    info: CommandInfoView,
    values: Seq<Seq<char>>,
) -> Seq<char> {
    join_words(info.args) + " "@ + join_words(quote_all(platform, values))
}

/// A shell invocation that runs `tool` with `dir` put first on the search
/// path, so that it is found before any copy elsewhere on the path.
pub open spec fn wrapped_command(
    platform: Platform,
    dir: Seq<char>,
    tool: Seq<char>,
    arguments: Seq<char>,
) -> (Seq<char>, Seq<Seq<char>>) {
    match platform {
        Platform::Unix => (
            "sh"@,
            seq!["-c"@, "PATH=\""@ + dir + ":$PATH\" "@ + tool + " "@ + arguments],
        ),
        Platform::Windows => (
            "cmd"@,
            seq!["/c"@, "set PATH="@ + dir + ";%PATH% && "@ + tool + " "@ + arguments],
        ),
    }
}

/// Runs `tool` through the platform's shell with `dir` added to the search
/// path.
pub fn wrap_with_path_prepend(platform: Platform, dir: &String, tool: &String, arguments: &String) -> (r: (
    String,
    Vec<String>,
))
    ensures
        (r.0@, r.1.deep_view()) == wrapped_command(platform, dir@, tool@, arguments@),
{
    let (program, flag, mut line) = match platform {
        Platform::Unix => (String::from_str("sh"), String::from_str("-c"), String::from_str("PATH=\"")),
        Platform::Windows => (
            String::from_str("cmd"),
            String::from_str("/c"),
            String::from_str("set PATH="),
        ),
    };
    line.append(dir.as_str());
    match platform {
        Platform::Unix => line.append(":$PATH\" "),
        Platform::Windows => line.append(";%PATH% && "),
    }
    line.append(tool.as_str());
    line.append(" ");
    line.append(arguments.as_str());
    let mut args: Vec<String> = Vec::new();
    args.push(flag);
    args.push(line);
    let ghost w = wrapped_command(platform, dir@, tool@, arguments@);
    assert(args.deep_view() =~= w.1);
    (program, args)
}

/// The provenance tag written into every record this library installs.
pub open spec fn creator_tag() -> Seq<char> {
    "Magnet"@
}

/// The launch record that installing `server` writes, given the caller's
/// optional environment map and input values.
pub open spec fn derived_record(
    platform: Platform,
    settings: SettingsView,
    server: BackendView,
    env: Option<Seq<(Seq<char>, Seq<char>)>>,
    values: Option<Seq<Seq<char>>>,
) -> ServerRecord {
    let info = server.command_info;
    let vals = match values {
        Some(v) => v,
        None => info.input_arg.value,
    };
    let input_arg = InputArgView { value: vals, ..info.input_arg };
    let env = match env {
        Some(e) => e,
        None => info.env,
    };
    match private_runtime(settings, info.command) {
        Some(p) => {
            let w = wrapped_command(
                platform,
                tool_dir(platform, p),
                info.command,
                argument_string(platform, info, match values {
                    Some(v) => v,
                    None => Seq::empty(),
                }),
            );
            ServerRecord { command: w.0, args: w.1, env, command_creator: creator_tag(), input_arg }
        },
        None => ServerRecord {
            command: info.command,
            args: info.args,
            env,
            command_creator: creator_tag(),
            input_arg,
        },
    }
}

/// Derives the launch record of a catalog entry. Input values given by the
/// caller replace the descriptor's values; a runtime that was provisioned
/// privately is reached by adding its directory to the search path.
pub fn derive_launch(
    platform: Platform,
    settings: &RuntimeSettings,
    server: &BackendServer,
    env: Option<EnvVars>,
    input_values: Option<Vec<String>>,
) -> (r: ClientServerConfig)
    ensures
        r@ == derived_record(platform, settings@, server@, env.deep_view(), input_values.deep_view()),
{
    let info = &server.command_info;
    let mut input_arg = info.input_arg.duplicate();
    let quoted = match &input_values {
        Some(v) => quote_words(platform, v),
        None => {
            assert(quote_all(platform, Seq::empty()) =~= Seq::<Seq<char>>::empty());
            String::new()
        },
    };
    match input_values {
        Some(v) => {
            input_arg.value = v;
        },
        None => {},
    }
    let env = match env {
        Some(e) => e,
        None => copy_env(&info.env),
    };
    let npx = String::from_str("npx");
    let uvx = String::from_str("uvx");
    let private: Option<&String> = if info.command == npx && !settings.use_system_node {
        Some(&settings.node_path)
    } else if info.command == uvx && !settings.use_system_uv {
        Some(&settings.uv_path)
    } else {
        None
    };
    let (command, args) = match private {
        Some(p) => {
            let mut arguments = join(&info.args);
            arguments.append(" ");
            arguments.append(quoted.as_str());
            let dir = directory_of(platform, p);
            wrap_with_path_prepend(platform, &dir, &info.command, &arguments)
        },
        None => (info.command.clone(), copy_strings(&info.args)),
    };
    ClientServerConfig {
        command,
        args,
        env,
        command_creator: String::from_str("Magnet"),
        input_arg,
    }
}

} // verus!
