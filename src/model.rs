//! The data model: catalog entries, installed records and their views.

use vstd::prelude::*;

use serde_json::Value;

verus! {

/// The kind of value an input argument takes.
#[derive(Clone, Copy, Debug, PartialEq, Eq, Structural)]
pub enum ArgClass {
    Text,
    Select,
    FilePath,
    DirectoryPath,
}

/// Whether an input argument takes one value or several.
#[derive(Clone, Copy, Debug, PartialEq, Eq, Structural)]
pub enum ArgumentMultiplicity {
    Single,
    Multiple,
}

/// An environment-variable map, as ordered key/value pairs.
pub type EnvVars = Vec<(String, String)>;

/// The single user-supplied argument a server may take.
pub struct InputArg {
    pub name: String,
    pub description: String,
    pub class: ArgClass,
    pub multiplicity: ArgumentMultiplicity,
    pub value: Vec<String>,
}

pub ghost struct InputArgView {
    pub name: Seq<char>,
    pub description: Seq<char>,
    pub class: ArgClass,
    pub multiplicity: ArgumentMultiplicity,
    pub value: Seq<Seq<char>>,
}

impl View for InputArg {
    type V = InputArgView;

    open spec fn view(&self) -> InputArgView {
        InputArgView {
            name: self.name@,
            description: self.description@,
            class: self.class,
            multiplicity: self.multiplicity,
            value: self.value.deep_view(),
        }
    }
}

/// A copy of a list of strings.
pub fn copy_strings(v: &Vec<String>) -> (r: Vec<String>)
    ensures
        r.deep_view() == v.deep_view(),
{
    let mut r: Vec<String> = Vec::new();
    let mut i: usize = 0;
    while i < v.len()
        invariant
            i <= v.len(),
            r.deep_view() == v.deep_view().take(i as int),
        decreases v.len() - i,
    {
        r.push(v[i].clone());
        proof {
            assert(v.deep_view().take(i + 1) =~= v.deep_view().take(i as int).push(v[i as int]@));
        }
        assert(r.deep_view() =~= v.deep_view().take(i + 1));
        i = i + 1;
    }
    assert(v.deep_view().take(i as int) =~= v.deep_view());
    r
}

/// A copy of an environment-variable map.
pub fn copy_env(v: &EnvVars) -> (r: EnvVars)
    ensures
        r.deep_view() == v.deep_view(),
{
    let mut r: EnvVars = Vec::new();
    let mut i: usize = 0;
    while i < v.len()
        invariant
            i <= v.len(),
            r.deep_view() == v.deep_view().take(i as int),
        decreases v.len() - i,
    {
        let k = v[i].0.clone();
        let x = v[i].1.clone();
        r.push((k, x));
        proof {
            assert(v.deep_view().take(i + 1) =~= v.deep_view().take(i as int).push(v[i as int].deep_view()));
        }
        assert(r.deep_view() =~= v.deep_view().take(i + 1));
        i = i + 1;
    }
    assert(v.deep_view().take(i as int) =~= v.deep_view());
    r
}

impl InputArg {
    /// A copy of this descriptor.
    pub fn duplicate(&self) -> (r: InputArg)
        ensures
            r@ == self@,
    {
        InputArg {
            name: self.name.clone(),
            description: self.description.clone(),
            class: self.class,
            multiplicity: self.multiplicity,
            value: copy_strings(&self.value),
        }
    }
}

/// Display metadata of a catalog entry.
pub struct BaseServer {
    pub id: String,
    pub title: String,
    pub description: String,
    pub creator: String,
    pub tags: Vec<String>,
    pub logo_url: String,
    pub rating: u8,
    pub publish_date: String,
}

pub ghost struct BaseServerView {
    pub id: Seq<char>,
    pub title: Seq<char>,
    pub description: Seq<char>,
    pub creator: Seq<char>,
    pub tags: Seq<Seq<char>>,
    pub logo_url: Seq<char>,
    pub rating: u8,
    pub publish_date: Seq<char>,
}

impl View for BaseServer {
    type V = BaseServerView;

    open spec fn view(&self) -> BaseServerView {
        BaseServerView {
            id: self.id@,
            title: self.title@,
            description: self.description@,
            creator: self.creator@,
            tags: self.tags.deep_view(),
            logo_url: self.logo_url@,
            rating: self.rating,
            publish_date: self.publish_date@,
        }
    }
}

impl BaseServer {
    /// A copy of this metadata.
    pub fn duplicate(&self) -> (r: BaseServer)
        ensures
            r@ == self@,
    {
        BaseServer {
            id: self.id.clone(),
            title: self.title.clone(),
            description: self.description.clone(),
            creator: self.creator.clone(),
            tags: copy_strings(&self.tags),
            logo_url: self.logo_url.clone(),
            rating: self.rating,
            publish_date: self.publish_date.clone(),
        }
    }
}

/// How a catalog entry is launched, before any runtime substitution.
pub struct SystemCommandInfo {
    pub command: String,
    pub args: Vec<String>,
    pub input_arg: InputArg,
    pub env: EnvVars,
    pub guide: String,
}

pub ghost struct CommandInfoView {
    pub command: Seq<char>,
    pub args: Seq<Seq<char>>,
    pub input_arg: InputArgView,
    pub env: Seq<(Seq<char>, Seq<char>)>,
    pub guide: Seq<char>,
}

impl View for SystemCommandInfo {
    type V = CommandInfoView;

    open spec fn view(&self) -> CommandInfoView {
        CommandInfoView {
            command: self.command@,
            args: self.args.deep_view(),
            input_arg: self.input_arg@,
            env: self.env.deep_view(),
            guide: self.guide@,
        }
    }
}

/// A catalog entry: everything needed to install a server.
pub struct BackendServer {
    pub base: BaseServer,
    pub command_info: SystemCommandInfo,
}

pub ghost struct BackendView {
    pub base: BaseServerView,
    pub command_info: CommandInfoView,
}

impl View for BackendServer {
    type V = BackendView;

    open spec fn view(&self) -> BackendView {
        BackendView { base: self.base@, command_info: self.command_info@ }
    }
}

/// A catalog entry joined with its installed state, for display.
pub struct FrontendServer {
    pub base: BaseServer,
    pub is_installed: bool,
    pub env: EnvVars,
    pub args: Vec<String>,
    pub guide: String,
    pub input_arg: InputArg,
}

pub ghost struct FrontendView {
    pub base: BaseServerView,
    pub is_installed: bool,
    pub env: Seq<(Seq<char>, Seq<char>)>,
    pub args: Seq<Seq<char>>,
    pub guide: Seq<char>,
    pub input_arg: InputArgView,
}

impl View for FrontendServer {
    type V = FrontendView;

    open spec fn view(&self) -> FrontendView {
        FrontendView {
            base: self.base@,
            is_installed: self.is_installed,
            env: self.env.deep_view(),
            args: self.args.deep_view(),
            guide: self.guide@,
            input_arg: self.input_arg@,
        }
    }
}

/// The launch record of an installed server, as the client stores it.
pub struct ClientServerConfig {
    pub command: String,
    pub args: Vec<String>,
    pub env: EnvVars,
    pub command_creator: String,
    pub input_arg: InputArg,
}

pub ghost struct ServerRecord {
    pub command: Seq<char>,
    pub args: Seq<Seq<char>>,
    pub env: Seq<(Seq<char>, Seq<char>)>,
    pub command_creator: Seq<char>,
    pub input_arg: InputArgView,
}

impl View for ClientServerConfig {
    type V = ServerRecord;

    open spec fn view(&self) -> ServerRecord {
        ServerRecord {
            command: self.command@,
            args: self.args.deep_view(),
            env: self.env.deep_view(),
            command_creator: self.command_creator@,
            input_arg: self.input_arg@,
        }
    }
}

impl ClientServerConfig {
    /// A copy of this record.
    pub fn duplicate(&self) -> (r: ClientServerConfig)
        ensures
            r@ == self@,
    {
        ClientServerConfig {
            command: self.command.clone(),
            args: copy_strings(&self.args),
            env: copy_env(&self.env),
            command_creator: self.command_creator.clone(),
            input_arg: self.input_arg.duplicate(),
        }
    }
}

/// A JSON value of the configuration file that this library carries through
/// untouched.
#[verifier::external_type_specification]
#[verifier::external_body]
pub struct ExValue(Value);

/// The client's configuration file: the installed records, keyed by server
/// identifier, and every other top-level field, kept as it was read.
pub struct ClientConfig {
    pub mcp_servers: Vec<(String, ClientServerConfig)>,
    pub other_fields: Vec<(String, Value)>,
}

pub ghost struct ConfigView {
    pub servers: Seq<(Seq<char>, ServerRecord)>,
    pub other: Seq<(String, Value)>,
}

/// The view of a list of installed records.
pub open spec fn entries_view(s: Seq<(String, ClientServerConfig)>) -> Seq<(Seq<char>, ServerRecord)> {
    s.map_values(|e: (String, ClientServerConfig)| (e.0@, e.1@))
}

impl View for ClientConfig {
    type V = ConfigView;

    open spec fn view(&self) -> ConfigView {
        ConfigView { servers: entries_view(self.mcp_servers@), other: self.other_fields@ }
    }
}

} // verus!
