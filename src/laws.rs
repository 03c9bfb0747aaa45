//! Properties that relate the transactions and the projection to each other.

use vstd::prelude::*;

use crate::command::{derived_record, private_runtime, SettingsView};
use crate::model::{BackendView, ConfigView};
use crate::servers::{
    catalog_entry, config_without, find_record, install_outcome, key_count, lemma_remove_absent,
    lemma_remove_twice, projected, remove_key, update_outcome,
};
use crate::text::{join_words, lemma_shell_quote_one_word, quote_all, sh_word, shell_quote, Platform};

verus! {

/// Installing, updating or uninstalling a server leaves every top-level field
/// of the configuration other than the server map exactly as it was read.
pub proof fn lemma_passthrough_preserved(
    c: ConfigView,
    platform: Platform,
    settings: SettingsView,
    catalog: Seq<BackendView>,
    id: Seq<char>,
    env: Option<Seq<(Seq<char>, Seq<char>)>>,
    values: Option<Seq<Seq<char>>>,
)
    ensures
        install_outcome(c, platform, settings, catalog, id, env, values).other == c.other,
        update_outcome(c, platform, settings, catalog, id, env, values).other == c.other,
        config_without(c, id).other == c.other,
{
}

/// Installing the same server twice leaves exactly one record of it, the one
/// the second call derives, as if only the second call had been made.
pub proof fn lemma_install_twice(
    c: ConfigView,
    platform: Platform,
    settings: SettingsView,
    catalog: Seq<BackendView>,
    id: Seq<char>,
    env1: Option<Seq<(Seq<char>, Seq<char>)>>,
    values1: Option<Seq<Seq<char>>>,
    env2: Option<Seq<(Seq<char>, Seq<char>)>>,
    values2: Option<Seq<Seq<char>>>,
)
    requires
        catalog_entry(catalog, id) is Some,
    ensures
        ({
            let once = install_outcome(c, platform, settings, catalog, id, env1, values1);
            let twice = install_outcome(once, platform, settings, catalog, id, env2, values2);
            &&& twice == install_outcome(c, platform, settings, catalog, id, env2, values2)
            &&& key_count(twice.servers, id) == 1
            &&& find_record(twice.servers, id) == Some(
                derived_record(platform, settings, catalog_entry(catalog, id)->0, env2, values2),
            )
        }),
{
    let b = catalog_entry(catalog, id)->0;
    let rec1 = derived_record(platform, settings, b, env1, values1);
    let rec2 = derived_record(platform, settings, b, env2, values2);
    let r = remove_key(c.servers, id);
    lemma_remove_twice(c.servers, id);
    assert(r.push((id, rec1)).drop_last() =~= r);
    assert(remove_key(r.push((id, rec1)), id) == remove_key(r, id));
    assert(r.push((id, rec2)).drop_last() =~= r);
}

/// Uninstalling a server that is not installed changes nothing.
pub proof fn lemma_uninstall_absent(c: ConfigView, id: Seq<char>)
    requires
        find_record(c.servers, id) is None,
    ensures
        config_without(c, id) == c,
{
    lemma_remove_absent(c.servers, id);
}

/// Updating an installed server that the catalog holds gives the same
/// configuration as uninstalling it and then installing it with the same
/// parameters.
pub proof fn lemma_update_is_reinstall(
    c: ConfigView,
    platform: Platform,
    settings: SettingsView,
    catalog: Seq<BackendView>,
    id: Seq<char>,
    env: Option<Seq<(Seq<char>, Seq<char>)>>,
    values: Option<Seq<Seq<char>>>,
)
    requires
        find_record(c.servers, id) is Some,
        catalog_entry(catalog, id) is Some,
    ensures
        update_outcome(c, platform, settings, catalog, id, env, values) == install_outcome(
            config_without(c, id),
            platform,
            settings,
            catalog,
            id,
            env,
            values,
        ),
{
    lemma_remove_twice(c.servers, id);
}

/// After a server is installed with the environment map `e`, its projection
/// shows it installed with `e`; after it is uninstalled, its projection shows
/// it not installed, with the catalog's default environment.
pub proof fn lemma_projection_follows_install(
    c: ConfigView,
    platform: Platform,
    settings: SettingsView,
    catalog: Seq<BackendView>,
    b: BackendView,
    e: Seq<(Seq<char>, Seq<char>)>,
    values: Option<Seq<Seq<char>>>,
)
    requires
        catalog_entry(catalog, b.base.id) == Some(b),
    ensures
        ({
            let installed = install_outcome(c, platform, settings, catalog, b.base.id, Some(e), values);
            &&& projected(b, installed).is_installed
            &&& projected(b, installed).env == e
            &&& !projected(b, config_without(installed, b.base.id)).is_installed
            &&& projected(b, config_without(installed, b.base.id)).env == b.command_info.env
        }),
{
    let id = b.base.id;
    let installed = install_outcome(c, platform, settings, catalog, id, Some(e), values);
    let rec = derived_record(platform, settings, b, Some(e), values);
    assert(installed.servers == remove_key(c.servers, id).push((id, rec)));
    assert(find_record(installed.servers, id) == Some(rec));
    lemma_remove_twice(installed.servers, id);
}

/// Installing through a privately provisioned runtime for a POSIX shell with
/// one input value `v` ends the shell line with a space and one word, which
/// the shell reads back as exactly `v`.
pub proof fn lemma_installed_value_is_one_word(
    settings: SettingsView,
    b: BackendView,
    env: Option<Seq<(Seq<char>, Seq<char>)>>,
    v: Seq<char>,
)
    requires
        private_runtime(settings, b.command_info.command) is Some,
    ensures
        ({
            let rec = derived_record(Platform::Unix, settings, b, env, Some(seq![v]));
            &&& rec.args.len() == 2
            &&& exists|head: Seq<char>| rec.args[1] == head + " "@ + shell_quote(v)
            &&& sh_word(shell_quote(v), false) == Some(v)
        }),
{
    let rec = derived_record(Platform::Unix, settings, b, env, Some(seq![v]));
    let q = quote_all(Platform::Unix, seq![v]);
    assert(q =~= seq![shell_quote(v)]);
    assert(join_words(q) == shell_quote(v));
    let line = rec.args[1];
    let p = private_runtime(settings, b.command_info.command)->0;
    let dir = crate::command::tool_dir(Platform::Unix, p);
    let head = "PATH=\""@ + dir + ":$PATH\" "@ + b.command_info.command + " "@ + join_words(
        b.command_info.args,
    );
    assert(line =~= head + " "@ + shell_quote(v));
    lemma_shell_quote_one_word(v);
}

} // verus!
