//! Reconciliation of the catalog with the client configuration: projection
//! for display, and the install, uninstall and update transactions.

use vstd::prelude::*;
use vstd::string::*;

use crate::command::{derive_launch, derived_record, RuntimeSettings, SettingsView};
use crate::model::{
    copy_env, copy_strings, entries_view, BackendServer, BackendView, ClientConfig,
    ClientServerConfig, ConfigView, EnvVars, FrontendServer, FrontendView, InputArgView,
    ServerRecord,
};
use crate::text::Platform;

verus! {

/// Why a transaction failed.
#[derive(Clone, Copy, Debug, PartialEq, Eq, Structural)]
pub enum ServerError {
    /// The identifier is not in the catalog.
    NotFound,
    /// The catalog or the configuration file could not be decoded.
    Malformed,
    /// The configuration file could not be read or written.
    IoFailure,
}

/// The records with every entry for `k` taken out, in their order.
pub open spec fn remove_key(s: Seq<(Seq<char>, ServerRecord)>, k: Seq<char>) -> Seq<
    (Seq<char>, ServerRecord),
>
    decreases s.len(),
{
    if s.len() == 0 {
        s
    } else {
        let r = remove_key(s.drop_last(), k);
        if s.last().0 == k {
            r
        } else {
            r.push(s.last())
        }
    }
}

/// The record stored for `k`: the last entry with that key.
pub open spec fn find_record(s: Seq<(Seq<char>, ServerRecord)>, k: Seq<char>) -> Option<
    ServerRecord,
>
    decreases s.len(),
{
    if s.len() == 0 {
        None
    } else if s.last().0 == k {
        Some(s.last().1)
    } else {
        find_record(s.drop_last(), k)
    }
}

/// How many entries have the key `k`.
pub open spec fn key_count(s: Seq<(Seq<char>, ServerRecord)>, k: Seq<char>) -> nat
    decreases s.len(),
{
    if s.len() == 0 {
        0
    } else {
        key_count(s.drop_last(), k) + if s.last().0 == k {
            1nat
        } else {
            0nat
        }
    }
}

/// No two records share an identifier.
pub open spec fn unique_keys(s: Seq<(Seq<char>, ServerRecord)>) -> bool {
    forall|i: int, j: int| 0 <= i < j < s.len() ==> #[trigger] s[i].0 != #[trigger] s[j].0
}

/// Whether some record has the identifier `k`.
pub open spec fn has_key(s: Seq<(Seq<char>, ServerRecord)>, k: Seq<char>) -> bool {
    exists|j: int| 0 <= j < s.len() && #[trigger] s[j].0 == k
}

/// The configuration with the server `k` uninstalled.
pub open spec fn config_without(c: ConfigView, k: Seq<char>) -> ConfigView {
    ConfigView { servers: remove_key(c.servers, k), other: c.other }
}

/// The configuration with `rec` as the one record of the server `k`.
pub open spec fn config_with(c: ConfigView, k: Seq<char>, rec: ServerRecord) -> ConfigView {
    ConfigView { servers: remove_key(c.servers, k).push((k, rec)), other: c.other }
}

pub open spec fn catalog_view(s: Seq<BackendServer>) -> Seq<BackendView> {
    s.map_values(|b: BackendServer| b@)
}

pub open spec fn is_first_match(s: Seq<BackendView>, id: Seq<char>, i: int) -> bool {
    &&& 0 <= i < s.len()
    &&& s[i].base.id == id
    &&& forall|j: int| 0 <= j < i ==> s[j].base.id != id
}

/// The first catalog entry with the identifier `id`.
pub open spec fn catalog_entry(s: Seq<BackendView>, id: Seq<char>) -> Option<BackendView> {
    if exists|i: int| is_first_match(s, id, i) {
        Some(s[choose|i: int| is_first_match(s, id, i)])
    } else {
        None
    }
}

/// The configuration after installing `id`: unchanged where the catalog
/// lacks it.
pub open spec fn install_outcome(
    c: ConfigView,
    platform: Platform,
    settings: SettingsView,
    catalog: Seq<BackendView>,
    id: Seq<char>,
    env: Option<Seq<(Seq<char>, Seq<char>)>>,
    values: Option<Seq<Seq<char>>>,
) -> ConfigView {
    match catalog_entry(catalog, id) {
        Some(b) => config_with(c, id, derived_record(platform, settings, b, env, values)),
        None => c,
    }
}

/// The configuration after updating `id`: its record is replaced by a fresh
/// one; where the catalog lacks `id` nothing changes.
pub open spec fn update_outcome(
    c: ConfigView,
    platform: Platform,
    settings: SettingsView,
    catalog: Seq<BackendView>,
    id: Seq<char>,
    env: Option<Seq<(Seq<char>, Seq<char>)>>,
    values: Option<Seq<Seq<char>>>,
) -> ConfigView {
    match catalog_entry(catalog, id) {
        Some(b) => config_with(c, id, derived_record(platform, settings, b, env, values)),
        None => c,
    }
}

/// The display projection of a catalog entry against a configuration.
pub open spec fn projected(b: BackendView, c: ConfigView) -> FrontendView {
    let info = b.command_info;
    match find_record(c.servers, b.base.id) {
        Some(rec) => FrontendView {
            base: b.base,
            is_installed: true,
            env: rec.env,
            args: info.args,
            guide: info.guide,
            input_arg: InputArgView { value: rec.input_arg.value, ..info.input_arg },
        },
        None => FrontendView {
            base: b.base,
            is_installed: false,
            env: info.env,
            args: info.args,
            guide: info.guide,
            input_arg: InputArgView { value: Seq::empty(), ..info.input_arg },
        },
    }
}

pub open spec fn frontend_views(s: Seq<FrontendServer>) -> Seq<FrontendView> {
    s.map_values(|f: FrontendServer| f@)
}

/// The installed ones among the projections, in their order.
pub open spec fn installed_only(s: Seq<FrontendView>) -> Seq<FrontendView>
    decreases s.len(),
{
    if s.len() == 0 {
        s
    } else if s.last().is_installed {
        installed_only(s.drop_last()).push(s.last())
    } else {
        installed_only(s.drop_last())
    }
}

fn without_server(entries: &Vec<(String, ClientServerConfig)>, key: &String) -> (r: Vec<
    (String, ClientServerConfig),
>)
    ensures
        entries_view(r@) == remove_key(entries_view(entries@), key@),
{
    let mut r: Vec<(String, ClientServerConfig)> = Vec::new();
    let mut i: usize = 0;
    while i < entries.len()
        invariant
            i <= entries.len(),
            entries_view(r@) == remove_key(entries_view(entries@).take(i as int), key@),
        decreases entries.len() - i,
    {
        proof {
            let t = entries_view(entries@).take(i + 1);
            assert(t.drop_last() =~= entries_view(entries@).take(i as int));
            assert(t.last() == (entries@[i as int].0@, entries@[i as int].1@));
        }
        if !(entries[i].0 == *key) {
            let k = entries[i].0.clone();
            let rec = entries[i].1.duplicate();
            let ghost before = r@;
            r.push((k, rec));
            assert(entries_view(r@) =~= entries_view(before).push((k@, rec@)));
        }
        i = i + 1;
    }
    assert(entries_view(entries@).take(i as int) =~= entries_view(entries@));
    r
}

impl ClientConfig {
    /// A configuration with no servers and no other fields: what a missing
    /// configuration file stands for.
    pub fn empty() -> (r: ClientConfig)
        ensures
            r@.servers == Seq::<(Seq<char>, ServerRecord)>::empty(),
            r@.other.len() == 0,
    {
        let r = ClientConfig { mcp_servers: Vec::new(), other_fields: Vec::new() };
        assert(r@.servers =~= Seq::<(Seq<char>, ServerRecord)>::empty());
        r
    }

    /// The position of the record stored for `id`, if there is one.
    pub fn find_server(&self, id: &str) -> (r: Option<usize>)
        ensures
            match r {
                Some(j) => j < self.mcp_servers.len() && find_record(self@.servers, id@) == Some(
                    self.mcp_servers@[j as int].1@,
                ),
                None => find_record(self@.servers, id@) is None,
            },
    {
        let key = String::from_str(id);
        let mut i: usize = self.mcp_servers.len();
        assert(self@.servers.take(i as int) =~= self@.servers);
        while i > 0
            invariant
                i <= self.mcp_servers.len(),
                key@ == id@,
                find_record(self@.servers, id@) == find_record(self@.servers.take(i as int), id@),
            decreases i,
        {
            proof {
                let t = self@.servers.take(i as int);
                assert(t.drop_last() =~= self@.servers.take(i - 1));
                assert(t.last() == (self.mcp_servers@[i - 1].0@, self.mcp_servers@[i - 1].1@));
            }
            if self.mcp_servers[i - 1].0 == key {
                return Some(i - 1);
            }
            i = i - 1;
        }
        None
    }

    /// Whether a record is stored for `id`.
    pub fn contains_server(&self, id: &str) -> (r: bool)
        ensures
            r == find_record(self@.servers, id@) is Some,
    {
        self.find_server(id).is_some()
    }
}

/// The installed records of a configuration.
pub fn get_client_server_config(config: ClientConfig) -> (r: Vec<(String, ClientServerConfig)>)
    ensures
        entries_view(r@) == config@.servers,
{
    config.mcp_servers
}

/// Removes the record of `server_id`, if there is one. Always succeeds.
pub fn uninstall_server_function(config: &mut ClientConfig, server_id: &str) -> (r: bool)
    ensures
        r,
        final(config)@ == config_without(old(config)@, server_id@),
        unique_keys(old(config)@.servers) ==> unique_keys(final(config)@.servers),
{
    proof {
        if unique_keys(old(config)@.servers) {
            lemma_remove_keeps_unique(old(config)@.servers, server_id@);
        }
    }
    let key = String::from_str(server_id);
    let kept = without_server(&config.mcp_servers, &key);
    config.mcp_servers = kept;
    true
}

/// The position of the first catalog entry with the identifier `id`.
pub fn find_catalog_entry(catalog: &Vec<BackendServer>, id: &str) -> (r: Option<usize>)
    ensures
        match r {
            Some(j) => j < catalog.len() && catalog_entry(catalog_view(catalog@), id@) == Some(
                catalog@[j as int]@,
            ),
            None => catalog_entry(catalog_view(catalog@), id@) is None,
        },
{
    let key = String::from_str(id);
    let ghost s = catalog_view(catalog@);
    let mut i: usize = 0;
    while i < catalog.len()
        invariant
            i <= catalog.len(),
            key@ == id@,
            s == catalog_view(catalog@),
            forall|j: int| 0 <= j < i ==> s[j].base.id != id@,
        decreases catalog.len() - i,
    {
        if catalog[i].base.id == key {
            assert(is_first_match(s, id@, i as int));
            proof {
                let c = choose|k: int| is_first_match(s, id@, k);
                assert(c == i) by {
                    if c < i {
                        assert(s[c].base.id != id@);
                    } else if c > i {
                        assert(s[i as int].base.id != id@);
                    }
                }
            }
            return Some(i);
        }
        i = i + 1;
    }
    assert(!exists|k: int| is_first_match(s, id@, k));
    None
}

/// Installs `server_id` from the catalog: derives its launch record and
/// stores it as the one record of that identifier. Fails with `NotFound`,
/// changing nothing, where the catalog lacks the identifier.
pub fn install_server_function(
    platform: Platform,
    settings: &RuntimeSettings,
    catalog: &Vec<BackendServer>,
    config: &mut ClientConfig,
    server_id: &str,
    env: Option<EnvVars>,
    input_arg: Option<Vec<String>>,
) -> (r: Result<(), ServerError>)
    ensures
        r == (if catalog_entry(catalog_view(catalog@), server_id@) is Some {
            Ok::<(), ServerError>(())
        } else {
            Err(ServerError::NotFound)
        }),
        final(config)@ == install_outcome(
            old(config)@,
            platform,
            settings@,
            catalog_view(catalog@),
            server_id@,
            env.deep_view(),
            input_arg.deep_view(),
        ),
        unique_keys(old(config)@.servers) ==> unique_keys(final(config)@.servers),
{
    proof {
        if unique_keys(old(config)@.servers) {
            lemma_remove_keeps_unique(old(config)@.servers, server_id@);
        }
    }
    match find_catalog_entry(catalog, server_id) {
        None => Err(ServerError::NotFound),
        Some(j) => {
            let rec = derive_launch(platform, settings, &catalog[j], env, input_arg);
            let key = String::from_str(server_id);
            let mut kept = without_server(&config.mcp_servers, &key);
            let ghost before = kept@;
            kept.push((key, rec));
            assert(entries_view(kept@) =~= entries_view(before).push((server_id@, rec@)));
            config.mcp_servers = kept;
            Ok(())
        },
    }
}

/// Updates `server_id`: where it is installed it is uninstalled first, then
/// installed afresh with the new parameters. Where the catalog lacks it the
/// update fails with `NotFound` before anything is changed.
pub fn update_server_function(
    platform: Platform,
    settings: &RuntimeSettings,
    catalog: &Vec<BackendServer>,
    config: &mut ClientConfig,
    server_id: &str,
    env: Option<EnvVars>,
    input_arg: Option<Vec<String>>,
) -> (r: Result<(), ServerError>)
    ensures
        r == (if catalog_entry(catalog_view(catalog@), server_id@) is Some {
            Ok::<(), ServerError>(())
        } else {
            Err(ServerError::NotFound)
        }),
        final(config)@ == update_outcome(
            old(config)@,
            platform,
            settings@,
            catalog_view(catalog@),
            server_id@,
            env.deep_view(),
            input_arg.deep_view(),
        ),
        unique_keys(old(config)@.servers) ==> unique_keys(final(config)@.servers),
{
    if find_catalog_entry(catalog, server_id).is_none() {
        return Err(ServerError::NotFound);
    }
    if config.contains_server(server_id) {
        uninstall_server_function(config, server_id);
    } else {
        proof {
            lemma_remove_absent(old(config)@.servers, server_id@);
        }
    }
    let r = install_server_function(platform, settings, catalog, config, server_id, env, input_arg);
    proof {
        lemma_remove_twice(old(config)@.servers, server_id@);
    }
    r
}

/// Taking out a key that has no record changes nothing.
pub proof fn lemma_remove_absent(s: Seq<(Seq<char>, ServerRecord)>, k: Seq<char>)
    requires
        find_record(s, k) is None,
    ensures
        remove_key(s, k) == s,
    decreases s.len(),
{
    if s.len() > 0 {
        lemma_remove_absent(s.drop_last(), k);
        assert(s.drop_last().push(s.last()) =~= s);
    }
}

/// After a key is taken out no record of it is left, and taking it out
/// again changes nothing.
pub proof fn lemma_remove_twice(s: Seq<(Seq<char>, ServerRecord)>, k: Seq<char>)
    ensures
        remove_key(remove_key(s, k), k) == remove_key(s, k),
        find_record(remove_key(s, k), k) is None,
        key_count(remove_key(s, k), k) == 0,
    decreases s.len(),
{
    if s.len() > 0 {
        lemma_remove_twice(s.drop_last(), k);
        let r = remove_key(s.drop_last(), k);
        if s.last().0 != k {
            assert(r.push(s.last()).drop_last() =~= r);
        }
    }
}

/// The display projection of one catalog entry against the configuration.
pub fn project_server(server: &BackendServer, config: &ClientConfig) -> (r: FrontendServer)
    ensures
        r@ == projected(server@, config@),
{
    let info = &server.command_info;
    let mut input_arg = info.input_arg.duplicate();
    let base = server.base.duplicate();
    let args = copy_strings(&info.args);
    let guide = info.guide.clone();
    match config.find_server(server.base.id.as_str()) {
        Some(j) => {
            let rec = &config.mcp_servers[j].1;
            input_arg.value = copy_strings(&rec.input_arg.value);
            FrontendServer { base, is_installed: true, env: copy_env(&rec.env), args, guide, input_arg }
        },
        None => {
            input_arg.value = Vec::new();
            assert(input_arg.value.deep_view() =~= Seq::<Seq<char>>::empty());
            FrontendServer {
                base,
                is_installed: false,
                env: copy_env(&info.env),
                args,
                guide,
                input_arg,
            }
        },
    }
}

/// Every catalog entry, in catalog order, joined with its installed state.
pub fn load_all_frontend_servers(catalog: &Vec<BackendServer>, config: &ClientConfig) -> (r: Vec<
    FrontendServer,
>)
    ensures
        r.len() == catalog.len(),
        forall|i: int| 0 <= i < catalog.len() ==> r[i]@ == projected(#[trigger] catalog@[i]@, config@),
{
    let mut r: Vec<FrontendServer> = Vec::new();
    let mut i: usize = 0;
    while i < catalog.len()
        invariant
            i <= catalog.len(),
            r.len() == i,
            forall|k: int| 0 <= k < i ==> r[k]@ == projected(#[trigger] catalog@[k]@, config@),
        decreases catalog.len() - i,
    {
        let f = project_server(&catalog[i], config);
        r.push(f);
        i = i + 1;
    }
    r
}

/// The projections of a whole catalog.
pub open spec fn all_projected(catalog: Seq<BackendServer>, c: ConfigView) -> Seq<FrontendView> {
    catalog.map_values(|b: BackendServer| projected(b@, c))
}

/// The installed catalog entries, in catalog order, joined with their records.
pub fn load_all_installed_frontend_servers(
    catalog: &Vec<BackendServer>,
    config: &ClientConfig,
) -> (r: Vec<FrontendServer>)
    ensures
        frontend_views(r@) == installed_only(all_projected(catalog@, config@)),
{
    let mut r: Vec<FrontendServer> = Vec::new();
    let mut i: usize = 0;
    while i < catalog.len()
        invariant
            i <= catalog.len(),
            frontend_views(r@) == installed_only(all_projected(catalog@, config@).take(i as int)),
        decreases catalog.len() - i,
    {
        let f = project_server(&catalog[i], config);
        proof {
            let t = all_projected(catalog@, config@).take(i + 1);
            assert(t.drop_last() =~= all_projected(catalog@, config@).take(i as int));
            assert(t.last() == f@);
        }
        if f.is_installed {
            let ghost before = r@;
            r.push(f);
            assert(frontend_views(r@) =~= frontend_views(before).push(f@));
        }
        i = i + 1;
    }
    assert(all_projected(catalog@, config@).take(i as int) =~= all_projected(catalog@, config@));
    r
}

/// Taking out a key keeps identifiers unique, leaves no record of that key,
/// and keeps only identifiers that were there before.
pub proof fn lemma_remove_keeps_unique(s: Seq<(Seq<char>, ServerRecord)>, k: Seq<char>)
    requires
        unique_keys(s),
    ensures
        unique_keys(remove_key(s, k)),
        !has_key(remove_key(s, k), k),
        forall|x: Seq<char>| has_key(remove_key(s, k), x) ==> has_key(s, x),
    decreases s.len(),
{
    if s.len() > 0 {
        let t = s.drop_last();
        assert(unique_keys(t)) by {
            assert forall|i: int, j: int| 0 <= i < j < t.len() implies #[trigger] t[i].0 != #[trigger] t[j].0 by {
                assert(t[i] == s[i] && t[j] == s[j]);
            }
        }
        lemma_remove_keeps_unique(t, k);
        let r = remove_key(t, k);
        assert forall|x: Seq<char>| has_key(t, x) implies has_key(s, x) by {
            let j = choose|j: int| 0 <= j < t.len() && #[trigger] t[j].0 == x;
            assert(s[j].0 == x);
        }
        if s.last().0 != k {
            let r2 = r.push(s.last());
            assert forall|x: Seq<char>| has_key(r2, x) implies has_key(s, x) by {
                let j = choose|j: int| 0 <= j < r2.len() && #[trigger] r2[j].0 == x;
                if j == r.len() {
                    assert(s[s.len() - 1].0 == x);
                } else {
                    assert(r[j].0 == x);
                    assert(has_key(r, x));
                }
            }
            assert(!has_key(t, s.last().0)) by {
                if has_key(t, s.last().0) {
                    let j = choose|j: int| 0 <= j < t.len() && #[trigger] t[j].0 == s.last().0;
                    assert(s[j].0 == s[s.len() - 1].0);
                }
            }
            assert(!has_key(r, s.last().0));
            assert forall|i: int, j: int| 0 <= i < j < r2.len() implies #[trigger] r2[i].0 != #[trigger] r2[j].0 by {
                if j == r.len() {
                    assert(r2[i] == r[i]);
                    if r[i].0 == s.last().0 {
                        assert(has_key(r, s.last().0));
                    }
                } else {
                    assert(r2[i] == r[i] && r2[j] == r[j]);
                }
            }
            assert(!has_key(r2, k)) by {
                if has_key(r2, k) {
                    let j = choose|j: int| 0 <= j < r2.len() && #[trigger] r2[j].0 == k;
                    if j < r.len() {
                        assert(r[j].0 == k);
                        assert(has_key(r, k));
                    }
                }
            }
        }
    }
}

} // verus!
