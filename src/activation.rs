use vstd::prelude::*;
use crate::config::Config;
use crate::discovery::{is_plugin_file_name, lemma_discovery_members, plugin_names_of};
use crate::text::{
    last_index_exec, last_index_of, lemma_filter_members, lemma_filter_no_duplicates, same_text, views,
};

verus! {

/// The host of a bind address that means every interface.
pub open spec fn wildcard_host() -> Seq<char> {
    "0.0.0.0"@
}

/// The loopback host, which a plugin's endpoint connects to in its place.
pub open spec fn loopback_host() -> Seq<char> {
    "127.0.0.1"@
}

/// The address a plugin endpoint connects to for a given `host:port` bind
/// address: when the host (all before the last ':') is the wildcard host, the
/// loopback host with the same port; any other address unchanged.
pub open spec fn connect_target_of(bind_addr: Seq<char>) -> Seq<char> {
    let k = last_index_of(bind_addr, ':');
    if k >= 0 && bind_addr.subrange(0, k) == wildcard_host() {
        loopback_host() + bind_addr.subrange(k, bind_addr.len() as int)
    } else {
        bind_addr
    }
}

/// The address a plugin endpoint connects to: a wildcard host in `bind_addr`
/// becomes the loopback host, since a connection cannot be made to "every
/// interface"; other hosts are kept as they are.
pub fn connect_target(bind_addr: &str) -> (r: String)
    ensures
        r@ == connect_target_of(bind_addr@),
{
    let n = bind_addr.unicode_len();
    match last_index_exec(bind_addr, ':') {
        Some(k) => {
            if same_text(bind_addr.substring_char(0, k), "0.0.0.0") {
                let mut target = String::from_str("127.0.0.1");
                target.append(bind_addr.substring_char(k, n));
                target
            } else {
                String::from_str(bind_addr)
            }
        },
        None => String::from_str(bind_addr),
    }
}

/// The candidates that the allow-list admits, in the candidates' order.
pub open spec fn admitted_of(candidates: Seq<Seq<char>>, config: Config) -> Seq<Seq<char>> {
    candidates.filter(|n: Seq<char>| config.admits(n))
}

/// The candidates that `config` admits, in the order they were discovered;
/// the others are dropped silently.
pub fn admitted_plugins(plugin_names: &Vec<String>, config: &Config) -> (r: Vec<String>)
    ensures
        views(r@) == admitted_of(views(plugin_names@), *config),
{
    let mut admitted: Vec<String> = Vec::new();
    let mut i: usize = 0;
    while i < plugin_names.len()
        invariant
            i <= plugin_names@.len(),
            views(admitted@) == admitted_of(views(plugin_names@).take(i as int), *config),
        decreases plugin_names@.len() - i,
    {
        let name = &plugin_names[i];
        let keep = config.is_enabled(name);
        proof {
            let all = views(plugin_names@);
            assert(all.take(i + 1).drop_last() =~= all.take(i as int));
            assert(all.take(i + 1).last() == name@);
            reveal(Seq::filter);
        }
        if keep {
            admitted.push(name.clone());
            assert(views(admitted@) =~= views(admitted@).drop_last().push(name@));
        }
        assert(views(admitted@) =~= admitted_of(views(plugin_names@).take(i + 1), *config));
        i += 1;
    }
    assert(views(plugin_names@).take(plugin_names@.len() as int) =~= views(plugin_names@));
    admitted
}

/// What one activation pass does: the plugins to load, in order, each with an
/// endpoint of its own connected to `connect_addr`.
pub struct ActivationPlan {
    pub plugins: Vec<String>,
    pub connect_addr: String,
}

/// Plans the activation of the discovered `plugin_names` under `config`.
pub fn plan_activation(plugin_names: &Vec<String>, config: &Config) -> (r: ActivationPlan)
    ensures
        views(r.plugins@) == admitted_of(views(plugin_names@), *config),
        r.connect_addr@ == connect_target_of(config.bind_addr@),
{
    ActivationPlan {
        plugins: admitted_plugins(plugin_names, config),
        connect_addr: connect_target(config.bind_addr.as_str()),
    }
}

/// A name is planned for activation exactly when it is an entry of the
/// directory, has a dynamic library's extension and is on the allow-list;
/// where the entries are distinct, no name is planned twice.
pub proof fn lemma_plan_members(entries: Seq<Seq<char>>, config: Config, name: Seq<char>)
    ensures
        admitted_of(plugin_names_of(entries), config).contains(name) <==> (entries.contains(name)
            && is_plugin_file_name(name) && config.admits(name)),
        entries.no_duplicates() ==> admitted_of(plugin_names_of(entries), config).no_duplicates(),
{
    let pred = |n: Seq<char>| config.admits(n);
    lemma_discovery_members(entries, name);
    lemma_filter_members(plugin_names_of(entries), pred, name);
    if entries.no_duplicates() {
        lemma_filter_no_duplicates(plugin_names_of(entries), pred);
    }
}

/// With one name on the allow-list, found among the directory's distinct
/// entries and naming a dynamic library, the plan holds that name alone,
/// whatever else the directory holds.
pub proof fn lemma_single_enabled_plugin(entries: Seq<Seq<char>>, config: Config)
    requires
        config.enabled_view().len() == 1,
        entries.no_duplicates(),
        entries.contains(config.enabled_view()[0]),
        is_plugin_file_name(config.enabled_view()[0]),
    ensures
        admitted_of(plugin_names_of(entries), config) == seq![config.enabled_view()[0]],
{
    let only = config.enabled_view()[0];
    let plan = admitted_of(plugin_names_of(entries), config);
    lemma_plan_members(entries, config, only);
    assert forall|i: int| 0 <= i < plan.len() implies plan[i] == only by {
        lemma_plan_members(entries, config, plan[i]);
        assert(plan.contains(plan[i]));
        let j = choose|j: int| 0 <= j < config.enabled_view().len() && config.enabled_view()[j] == plan[i];
    }
    if plan.len() > 1 {
        assert(plan[0] == plan[1]);
    }
    assert(plan =~= seq![only]);
}

} // verus!
