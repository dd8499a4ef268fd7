use vstd::prelude::*;

use std::collections::BTreeMap;

verus! {

/// The configuration file: each signal by name, with the publisher sockets
/// that it reads.
pub type SignerConfig = Vec<(String, Vec<String>)>;

/// A configuration entry as text: the signal's name and its socket paths.
pub type ConfigEntry = (Seq<char>, Seq<Seq<char>>);

/// `serde_json::Error`, carried through as an opaque value.
#[verifier::external_type_specification]
#[verifier::external_body]
pub struct ExJsonError(serde_json::Error);

/// What `serde_json` reads from a JSON text as a map from names to lists of
/// strings: the entries ordered by name, or `None` where the text is not such
/// a map.
pub uninterp spec fn signer_config_json(text: Seq<char>) -> Option<Seq<ConfigEntry>>;

/// Calls `serde_json::from_str` for a `BTreeMap<String, Vec<String>>` and
/// hands out its entries in the map's order. The contract claims that the
/// outcome is the named result `signer_config_json` of the text, and that no
/// name occurs twice among the entries (a map holds each key once). The order
/// of the names (the map's key order) is left unsaid.
#[verifier::external_body]
fn from_json(text: &str) -> (r: Result<SignerConfig, serde_json::Error>)
    ensures
        match r {
            Ok(v) => signer_config_json(text@) == Some(v.deep_view()) && config_names(
                v.deep_view(),
            ).no_duplicates(),
            Err(_) => signer_config_json(text@) is None,
        },
{
    match serde_json::from_str::<BTreeMap<String, Vec<String>>>(text) {
        Ok(m) => Ok(m.into_iter().collect()),
        Err(e) => Err(e),
    }
}

/// Why a configuration could not be used.
#[derive(PartialEq, Eq, Structural, Clone, Copy, Debug)]
pub enum ConfigError {
    /// The file is not a JSON map from names to lists of socket paths.
    Deserialize,
}

impl ConfigError {
    /// The text that reports this error.
    pub fn message(&self) -> (r: String)
        ensures
            r@ == "failed to deserialize the configuration file"@,
    {
        String::from_str("failed to deserialize the configuration file")
    }
}

/// Reads the configuration file's text.
pub fn parse_signer_config(content: &str) -> (r: Result<SignerConfig, ConfigError>)
    ensures
        match r {
            Ok(v) => signer_config_json(content@) == Some(v.deep_view()) && config_names(
                v.deep_view(),
            ).no_duplicates(),
            Err(e) => signer_config_json(content@) is None && e == ConfigError::Deserialize,
        },
{
    match from_json(content) {
        Ok(v) => Ok(v),
        Err(_) => Err(ConfigError::Deserialize),
    }
}

/// The names of the signals of a configuration.
pub open spec fn config_names(config: Seq<ConfigEntry>) -> Seq<Seq<char>> {
    config.map_values(|e: ConfigEntry| e.0)
}

/// The entries of `config` whose signal is not running: these are started.
pub open spec fn to_start(running: Seq<Seq<char>>, config: Seq<ConfigEntry>) -> Seq<ConfigEntry> {
    config.filter(|e: ConfigEntry| !running.contains(e.0))
}

/// The running signals that `config` no longer names: these are stopped.
pub open spec fn to_stop(running: Seq<Seq<char>>, config: Seq<ConfigEntry>) -> Seq<Seq<char>> {
    running.filter(|n: Seq<char>| !config_names(config).contains(n))
}

/// What a new configuration asks of the running signals.
pub struct ReconfigPlan {
    /// The signals to start, with their socket paths, in the configuration's
    /// order.
    pub start: SignerConfig,
    /// The running signals to stop, in the order given.
    pub stop: Vec<String>,
}

fn contains_name(names: &Vec<String>, name: &String) -> (r: bool)
    ensures
        r == names.deep_view().contains(name@),
{
    let mut i: usize = 0;
    while i < names.len()
        invariant
            i <= names.len(),
            forall|j: int| 0 <= j < i ==> names.deep_view()[j] != name@,
        decreases names.len() - i,
    {
        if names[i] == *name {
            assert(names.deep_view()[i as int] == name@);
            return true;
        }
        i = i + 1;
    }
    false
}

fn config_has(config: &SignerConfig, name: &String) -> (r: bool)
    ensures
        r == config_names(config.deep_view()).contains(name@),
{
    let ghost names = config_names(config.deep_view());
    let mut i: usize = 0;
    while i < config.len()
        invariant
            i <= config.len(),
            names == config_names(config.deep_view()),
            names.len() == config.len(),
            forall|j: int| 0 <= j < i ==> names[j] != name@,
        decreases config.len() - i,
    {
        if config[i].0 == *name {
            assert(names[i as int] == name@);
            return true;
        }
        i = i + 1;
    }
    false
}

/// Compares the running signals with a new configuration: the signals that
/// it names and that do not run are started, the running ones that it no
/// longer names are stopped, and the others keep running as they are.
pub fn plan_reconfigure(running: &Vec<String>, config: SignerConfig) -> (r: ReconfigPlan)
    ensures
        r.start.deep_view() == to_start(running.deep_view(), config.deep_view()),
        r.stop.deep_view() == to_stop(running.deep_view(), config.deep_view()),
{
    let ghost run = running.deep_view();
    let ghost cfg = config.deep_view();
    let mut stop: Vec<String> = Vec::new();
    let mut i: usize = 0;
    while i < running.len()
        invariant
            i <= running.len(),
            run == running.deep_view(),
            cfg == config.deep_view(),
            stop.deep_view() == run.take(i as int).filter(
                |n: Seq<char>| !config_names(cfg).contains(n),
            ),
        decreases running.len() - i,
    {
        proof {
            reveal(Seq::filter);
            assert(run.take(i + 1).drop_last() =~= run.take(i as int));
        }
        if !config_has(&config, &running[i]) {
            let ghost before = stop.deep_view();
            stop.push(running[i].clone());
            assert(stop.deep_view() =~= before.push(run[i as int]));
        }
        i = i + 1;
    }
    assert(run.take(running.len() as int) =~= run);
    let mut start: SignerConfig = Vec::new();
    let mut rest = config;
    proof {
        assert(cfg.take(0) =~= Seq::<ConfigEntry>::empty());
        reveal(Seq::filter);
        assert(start.deep_view() =~= Seq::<ConfigEntry>::empty());
    }
    let n = rest.len();
    let mut k: usize = 0;
    while k < n
        invariant
            n == cfg.len(),
            k <= n,
            run == running.deep_view(),
            rest.deep_view() == cfg.skip(k as int),
            rest.len() == n - k,
            start.deep_view() == cfg.take(k as int).filter(|e: ConfigEntry| !run.contains(e.0)),
        decreases n - k,
    {
        let ghost before = start.deep_view();
        let entry = rest.remove(0);
        proof {
            reveal(Seq::filter);
            assert(cfg.take(k + 1).drop_last() =~= cfg.take(k as int));
            assert(cfg.skip(k as int)[0] == cfg[k as int]);
            assert(cfg.skip(k + 1) =~= cfg.skip(k as int).drop_first());
            assert(rest.deep_view() =~= cfg.skip(k + 1));
        }
        if !contains_name(running, &entry.0) {
            let ghost e = entry.deep_view();
            start.push(entry);
            assert(start.deep_view() =~= before.push(e));
        }
        k = k + 1;
    }
    assert(cfg.take(n as int) =~= cfg);
    ReconfigPlan { start, stop }
}

/// Law: once a plan is carried out (its signals stopped and started), the
/// signals that run are exactly those that the configuration names.
pub proof fn law_plan_reaches_config(
    running: Seq<Seq<char>>,
    config: Seq<ConfigEntry>,
    name: Seq<char>,
)
    ensures
        ((running.contains(name) && !to_stop(running, config).contains(name)) || config_names(
            to_start(running, config),
        ).contains(name)) == config_names(config).contains(name),
{
    let names = config_names(config);
    let start = to_start(running, config);
    let stop = to_stop(running, config);
    let pstart = |e: ConfigEntry| !running.contains(e.0);
    let pstop = |n: Seq<char>| !names.contains(n);
    assert(start == config.filter(pstart));
    assert(stop == running.filter(pstop));
    if names.contains(name) {
        let j = choose|j: int| 0 <= j < names.len() && names[j] == name;
        if running.contains(name) {
            if stop.contains(name) {
                let i = choose|i: int| 0 <= i < stop.len() && stop[i] == name;
                running.lemma_filter_pred(pstop, i);
            }
        } else {
            config.lemma_filter_contains(pstart, j);
            let k = choose|k: int| 0 <= k < start.len() && start[k] == config[j];
            assert(config_names(start)[k] == name);
        }
    } else {
        if running.contains(name) {
            let i = choose|i: int| 0 <= i < running.len() && running[i] == name;
            running.lemma_filter_contains(pstop, i);
        }
        if config_names(start).contains(name) {
            let k = choose|k: int| 0 <= k < config_names(start).len() && config_names(start)[k] == name;
            assert(start.contains(start[k]));
            config.lemma_filter_contains_rev(pstart, start[k]);
            let j = choose|j: int| 0 <= j < config.len() && config[j] == start[k];
            assert(names[j] == name);
        }
    }
}

/// Law: the signals that a plan starts are exactly the configuration's
/// entries, unchanged (name and socket paths), whose signal does not run.
pub proof fn law_start_entries(running: Seq<Seq<char>>, config: Seq<ConfigEntry>, e: ConfigEntry)
    ensures
        to_start(running, config).contains(e) <==> (config.contains(e) && !running.contains(e.0)),
{
    let p = |x: ConfigEntry| !running.contains(x.0);
    let start = config.filter(p);
    assert(to_start(running, config) == start);
    if start.contains(e) {
        config.lemma_filter_contains_rev(p, e);
        let k = choose|k: int| 0 <= k < start.len() && start[k] == e;
        config.lemma_filter_pred(p, k);
    }
    if config.contains(e) && !running.contains(e.0) {
        let i = choose|i: int| 0 <= i < config.len() && config[i] == e;
        config.lemma_filter_contains(p, i);
    }
}

/// Law: the signals that a plan stops are exactly the running ones that no
/// entry of the configuration names.
pub proof fn law_stop_names(running: Seq<Seq<char>>, config: Seq<ConfigEntry>, n: Seq<char>)
    ensures
        to_stop(running, config).contains(n) <==> (running.contains(n) && !(exists|i: int|
            0 <= i < config.len() && #[trigger] config[i].0 == n)),
{
    let names = config_names(config);
    let p = |x: Seq<char>| !names.contains(x);
    let stop = running.filter(p);
    assert(to_stop(running, config) == stop);
    assert(names.contains(n) <==> exists|i: int| 0 <= i < config.len() && #[trigger] config[i].0 == n)
        by {
        if names.contains(n) {
            let j = choose|j: int| 0 <= j < names.len() && names[j] == n;
            assert(config[j].0 == n);
        }
        if exists|i: int| 0 <= i < config.len() && #[trigger] config[i].0 == n {
            let i = choose|i: int| 0 <= i < config.len() && #[trigger] config[i].0 == n;
            assert(names[i] == n);
        }
    }
    if stop.contains(n) {
        running.lemma_filter_contains_rev(p, n);
        let k = choose|k: int| 0 <= k < stop.len() && stop[k] == n;
        running.lemma_filter_pred(p, k);
    }
    if running.contains(n) && !names.contains(n) {
        let i = choose|i: int| 0 <= i < running.len() && running[i] == n;
        running.lemma_filter_contains(p, i);
    }
}

/// Law: a plan never stops a signal that it starts, and starts only signals
/// that do not run.
pub proof fn law_plan_disjoint(running: Seq<Seq<char>>, config: Seq<ConfigEntry>, name: Seq<char>)
    ensures
        config_names(to_start(running, config)).contains(name) ==> !running.contains(name),
        to_stop(running, config).contains(name) ==> running.contains(name),
{
    let start = to_start(running, config);
    let stop = to_stop(running, config);
    let pstart = |e: ConfigEntry| !running.contains(e.0);
    let pstop = |n: Seq<char>| !config_names(config).contains(n);
    assert(start == config.filter(pstart));
    assert(stop == running.filter(pstop));
    if config_names(start).contains(name) {
        let k = choose|k: int| 0 <= k < config_names(start).len() && config_names(start)[k] == name;
        config.lemma_filter_pred(pstart, k);
    }
    if stop.contains(name) {
        running.lemma_filter_contains_rev(pstop, name);
    }
}

proof fn lemma_filter_no_duplicates<A>(s: Seq<A>, p: spec_fn(A) -> bool)
    requires
        s.no_duplicates(),
    ensures
        s.filter(p).no_duplicates(),
    decreases s.len(),
{
    reveal(Seq::filter);
    if s.len() > 0 {
        let d = s.drop_last();
        assert(d.no_duplicates());
        lemma_filter_no_duplicates(d, p);
        let f = d.filter(p);
        if p(s.last()) {
            assert forall|k: int| 0 <= k < f.len() implies f[k] != s.last() by {
                assert(f.contains(f[k]));
                d.lemma_filter_contains_rev(p, f[k]);
                let j = choose|j: int| 0 <= j < d.len() && d[j] == f[k];
                assert(s[j] == d[j]);
            }
            let g = f.push(s.last());
            assert forall|a: int, b: int| 0 <= a < g.len() && 0 <= b < g.len() && a != b implies g[a]
                != g[b] by {
                if a < f.len() && b < f.len() {
                    assert(g[a] == f[a] && g[b] == f[b]);
                }
            }
        }
    }
}

proof fn lemma_filter_names_no_duplicates(c: Seq<ConfigEntry>, p: spec_fn(ConfigEntry) -> bool)
    requires
        config_names(c).no_duplicates(),
    ensures
        config_names(c.filter(p)).no_duplicates(),
    decreases c.len(),
{
    reveal(Seq::filter);
    if c.len() > 0 {
        let d = c.drop_last();
        assert(config_names(d) =~= config_names(c).drop_last());
        lemma_filter_names_no_duplicates(d, p);
        let f = d.filter(p);
        if p(c.last()) {
            let n = config_names(c.filter(p));
            assert(c.filter(p) == f.push(c.last()));
            assert(n =~= config_names(f).push(c.last().0));
            assert forall|k: int| 0 <= k < f.len() implies f[k].0 != c.last().0 by {
                assert(f.contains(f[k]));
                d.lemma_filter_contains_rev(p, f[k]);
                let j = choose|j: int| 0 <= j < d.len() && d[j] == f[k];
                assert(config_names(c)[j] == f[k].0);
                assert(config_names(c)[c.len() - 1] == c.last().0);
            }
            assert forall|a: int, b: int| 0 <= a < n.len() && 0 <= b < n.len() && a != b implies n[a]
                != n[b] by {
                if a < f.len() && b < f.len() {
                    assert(n[a] == config_names(f)[a] && n[b] == config_names(f)[b]);
                } else if a < f.len() {
                    assert(n[a] == f[a].0);
                } else if b < f.len() {
                    assert(n[b] == f[b].0);
                }
            }
        }
    }
}

/// Law: a plan starts each signal at most once, where the configuration names
/// each signal once; it stops each signal at most once, where each running
/// signal is named once.
pub proof fn law_plan_once(running: Seq<Seq<char>>, config: Seq<ConfigEntry>)
    ensures
        config_names(config).no_duplicates() ==> config_names(to_start(running, config)).no_duplicates(),
        running.no_duplicates() ==> to_stop(running, config).no_duplicates(),
{
    if config_names(config).no_duplicates() {
        lemma_filter_names_no_duplicates(config, |e: ConfigEntry| !running.contains(e.0));
    }
    if running.no_duplicates() {
        lemma_filter_no_duplicates(running, |n: Seq<char>| !config_names(config).contains(n));
    }
}

/// Law: where the running signals are exactly those that the configuration
/// names (as after a plan for it was carried out), the plan for the same
/// configuration starts nothing and stops nothing.
pub proof fn law_plan_idempotent(running: Seq<Seq<char>>, config: Seq<ConfigEntry>)
    requires
        forall|n: Seq<char>| running.contains(n) <==> config_names(config).contains(n),
    ensures
        to_start(running, config) == Seq::<ConfigEntry>::empty(),
        to_stop(running, config) == Seq::<Seq<char>>::empty(),
{
    let pstart = |e: ConfigEntry| !running.contains(e.0);
    let pstop = |n: Seq<char>| !config_names(config).contains(n);
    let start = config.filter(pstart);
    let stop = running.filter(pstop);
    if start.len() > 0 {
        config.lemma_filter_pred(pstart, 0);
        assert(start.contains(start[0]));
        config.lemma_filter_contains_rev(pstart, start[0]);
        let j = choose|j: int| 0 <= j < config.len() && config[j] == start[0];
        assert(config_names(config)[j] == start[0].0);
    }
    if stop.len() > 0 {
        running.lemma_filter_pred(pstop, 0);
        assert(stop.contains(stop[0]));
        running.lemma_filter_contains_rev(pstop, stop[0]);
    }
    assert(start =~= Seq::<ConfigEntry>::empty());
    assert(stop =~= Seq::<Seq<char>>::empty());
}

/// The signals that run once the plan for `config` is carried out: the
/// running ones that it does not stop, then the ones that it starts.
pub open spec fn after_plan(running: Seq<Seq<char>>, config: Seq<ConfigEntry>) -> Seq<Seq<char>> {
    running.filter(|n: Seq<char>| !to_stop(running, config).contains(n)) + config_names(
        to_start(running, config),
    )
}

/// Law: reading the same configuration again, once its plan is carried out,
/// starts nothing and stops nothing.
pub proof fn law_reload_unchanged(running: Seq<Seq<char>>, config: Seq<ConfigEntry>)
    ensures
        to_start(after_plan(running, config), config) == Seq::<ConfigEntry>::empty(),
        to_stop(after_plan(running, config), config) == Seq::<Seq<char>>::empty(),
{
    let stop = to_stop(running, config);
    let keep_p = |n: Seq<char>| !stop.contains(n);
    let kept = running.filter(keep_p);
    let started = config_names(to_start(running, config));
    let after = after_plan(running, config);
    assert(after == kept + started);
    assert forall|n: Seq<char>| after.contains(n) <==> config_names(config).contains(n) by {
        law_plan_reaches_config(running, config, n);
        if kept.contains(n) {
            running.lemma_filter_contains_rev(keep_p, n);
            let k = choose|k: int| 0 <= k < kept.len() && kept[k] == n;
            running.lemma_filter_pred(keep_p, k);
            assert(after[k] == n);
        }
        if started.contains(n) {
            let k = choose|k: int| 0 <= k < started.len() && started[k] == n;
            assert(after[kept.len() + k] == n);
        }
        if running.contains(n) && !stop.contains(n) {
            let i = choose|i: int| 0 <= i < running.len() && running[i] == n;
            running.lemma_filter_contains(keep_p, i);
        }
        if after.contains(n) {
            let k = choose|k: int| 0 <= k < after.len() && after[k] == n;
            if k < kept.len() {
                assert(kept[k] == n);
            } else {
                assert(started[k - kept.len()] == n);
            }
        }
    }
    law_plan_idempotent(after, config);
}

/// The configuration file to read again after an event on the watched path:
/// on a modification, the event's first path; after any other event, none.
pub fn changed_config_path(modified: bool, first_path: Option<String>) -> (r: Option<String>)
    requires
        modified ==> first_path is Some,
    ensures
        r == (if modified {
            first_path
        } else {
            None
        }),
{
    if modified {
        first_path
    } else {
        None
    }
}

/// Reads a new configuration and compares it with the running signals.
pub fn reconfigure(running: &Vec<String>, content: &str) -> (r: Result<ReconfigPlan, ConfigError>)
    ensures
        match r {
            Ok(p) => signer_config_json(content@) matches Some(cfg) && p.start.deep_view()
                == to_start(running.deep_view(), cfg) && p.stop.deep_view() == to_stop(
                running.deep_view(),
                cfg,
            ) && config_names(p.start.deep_view()).no_duplicates() && (
            running.deep_view().no_duplicates() ==> p.stop.deep_view().no_duplicates()),
            Err(e) => signer_config_json(content@) is None && e == ConfigError::Deserialize,
        },
{
    let config = parse_signer_config(content)?;
    proof {
        law_plan_once(running.deep_view(), config.deep_view());
    }
    Ok(plan_reconfigure(running, config))
}

} // verus!
