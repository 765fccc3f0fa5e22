//! What a reload of the configuration file changes: the servers it adds, those it
//! removes, and those whose entry it changes (which are reconnected).
use std::collections::HashMap;
use vstd::prelude::*;

use crate::config::{opt_view, AppConfig, McpServerConfig, OAuthConfig};
use crate::text::{str_eq, views};

verus! {

/// The contents of an optional string map: its keys and values as text.
pub open spec fn opt_map_view(o: Option<HashMap<String, String>>) -> Option<Map<Seq<char>, Seq<char>>> {
    match o {
        Some(m) => Some(m.deep_view()),
        None => None,
    }
}

/// The texts of an optional list of strings.
pub open spec fn opt_views(o: Option<Vec<String>>) -> Option<Seq<Seq<char>>> {
    match o {
        Some(v) => Some(views(v@)),
        None => None,
    }
}

/// The OAuth settings of an entry as plain values.
pub open spec fn oauth_view(o: Option<OAuthConfig>) -> Option<
    (Seq<char>, Option<Seq<char>>, Option<u16>, Option<bool>),
> {
    match o {
        Some(a) => Some((a.server_url@, opt_view(a.storage_type), a.callback_port, a.use_loopback)),
        None => None,
    }
}

/// Everything a server entry says, as plain values: command, arguments, environment,
/// address, type, headers, disabled tools and OAuth settings.
pub open spec fn entry_model(c: McpServerConfig) -> (
    Option<Seq<char>>,
    Option<Seq<Seq<char>>>,
    Option<Map<Seq<char>, Seq<char>>>,
    Option<Seq<char>>,
    Option<Seq<char>>,
    Option<Map<Seq<char>, Seq<char>>>,
    Option<Seq<Seq<char>>>,
    Option<(Seq<char>, Option<Seq<char>>, Option<u16>, Option<bool>)>,
) {
    (
        opt_view(c.command),
        opt_views(c.args),
        opt_map_view(c.env),
        opt_view(c.url),
        opt_view(c.server_type),
        opt_map_view(c.headers),
        opt_views(c.disabled_tools),
        oauth_view(c.oauth),
    )
}

/// Compares two string maps: std's `PartialEq` for `HashMap<String, String>`, which
/// holds when both have the same keys and equal values under each key.
#[verifier::external_body]
fn same_string_map(a: &HashMap<String, String>, b: &HashMap<String, String>) -> (r: bool)
    ensures
        r == (a.deep_view() == b.deep_view()),
{
    a == b
}

/// Whether two optional strings say the same.
fn same_opt_text(a: &Option<String>, b: &Option<String>) -> (r: bool)
    ensures
        r == (opt_view(*a) == opt_view(*b)),
{
    match (a, b) {
        (Some(x), Some(y)) => str_eq(x.as_str(), y.as_str()),
        (None, None) => true,
        _ => false,
    }
}

/// Whether two lists of strings say the same.
fn same_texts(a: &Vec<String>, b: &Vec<String>) -> (r: bool)
    ensures
        r == (views(a@) == views(b@)),
{
    if a.len() != b.len() {
        assert(views(a@).len() != views(b@).len());
        return false;
    }
    let n = a.len();
    for i in 0..n
        invariant
            n == a@.len(),
            n == b@.len(),
            forall|j: int| 0 <= j < i ==> #[trigger] a@[j]@ == b@[j]@,
    {
        if !str_eq(a[i].as_str(), b[i].as_str()) {
            assert(views(a@)[i as int] != views(b@)[i as int]);
            return false;
        }
    }
    assert(views(a@) =~= views(b@));
    true
}

/// Whether two optional lists of strings say the same.
fn same_opt_texts(a: &Option<Vec<String>>, b: &Option<Vec<String>>) -> (r: bool)
    ensures
        r == (opt_views(*a) == opt_views(*b)),
{
    match (a, b) {
        (Some(x), Some(y)) => same_texts(x, y),
        (None, None) => true,
        _ => false,
    }
}

/// Whether two optional string maps say the same.
fn same_opt_map(a: &Option<HashMap<String, String>>, b: &Option<HashMap<String, String>>) -> (r: bool)
    ensures
        r == (opt_map_view(*a) == opt_map_view(*b)),
{
    match (a, b) {
        (Some(x), Some(y)) => same_string_map(x, y),
        (None, None) => true,
        _ => false,
    }
}

/// Whether two optional OAuth settings say the same.
fn same_oauth(a: &Option<OAuthConfig>, b: &Option<OAuthConfig>) -> (r: bool)
    ensures
        r == (oauth_view(*a) == oauth_view(*b)),
{
    match (a, b) {
        (Some(x), Some(y)) => {
            str_eq(x.server_url.as_str(), y.server_url.as_str()) && same_opt_text(
                &x.storage_type,
                &y.storage_type,
            ) && x.callback_port == y.callback_port && x.use_loopback == y.use_loopback
        },
        (None, None) => true,
        _ => false,
    }
}

/// Whether two server entries say the same in every field.
pub fn same_entry(a: &McpServerConfig, b: &McpServerConfig) -> (r: bool)
    ensures
        r == (entry_model(*a) == entry_model(*b)),
{
    same_opt_text(&a.command, &b.command) && same_opt_texts(&a.args, &b.args) && same_opt_map(
        &a.env,
        &b.env,
    ) && same_opt_text(&a.url, &b.url) && same_opt_text(&a.server_type, &b.server_type)
        && same_opt_map(&a.headers, &b.headers) && same_opt_texts(
        &a.disabled_tools,
        &b.disabled_tools,
    ) && same_oauth(&a.oauth, &b.oauth)
}

/// The names of the entries, in order.
pub open spec fn names_of(es: Seq<(String, McpServerConfig)>) -> Seq<Seq<char>> {
    es.map_values(|e: (String, McpServerConfig)| e.0@)
}

/// The first entry named `name`, if any.
pub open spec fn entry_named(es: Seq<(String, McpServerConfig)>, name: Seq<char>) -> Option<
    McpServerConfig,
>
    decreases es.len(),
{
    if es.len() == 0 {
        None
    } else if es[0].0@ == name {
        Some(es[0].1)
    } else {
        entry_named(es.drop_first(), name)
    }
}

/// The names of the entries of `es` that `base` does not name, in their order.
pub open spec fn names_missing_from(base: Seq<(String, McpServerConfig)>, es: Seq<(String, McpServerConfig)>) -> Seq<
    Seq<char>,
>
    decreases es.len(),
{
    if es.len() == 0 {
        Seq::empty()
    } else {
        let e = es.last();
        names_missing_from(base, es.drop_last()) + if names_of(base).contains(e.0@) {
            Seq::<Seq<char>>::empty()
        } else {
            seq![e.0@]
        }
    }
}

/// An entry of the new configuration whose name the old one has, under a different
/// entry (the first of that name).
pub open spec fn entry_changed(old: Seq<(String, McpServerConfig)>, e: (String, McpServerConfig)) -> bool {
    match entry_named(old, e.0@) {
        Some(c) => entry_model(c) != entry_model(e.1),
        None => false,
    }
}

/// The names of the entries of `new` that `old` has under a different entry, in order.
pub open spec fn changed_names(old: Seq<(String, McpServerConfig)>, new: Seq<(String, McpServerConfig)>) -> Seq<
    Seq<char>,
>
    decreases new.len(),
{
    if new.len() == 0 {
        Seq::empty()
    } else {
        let e = new.last();
        changed_names(old, new.drop_last()) + if entry_changed(old, e) {
            seq![e.0@]
        } else {
            Seq::<Seq<char>>::empty()
        }
    }
}

/// What a reload does: the servers to add (named by the new configuration only), to
/// remove (named by the old one only) and to reconnect (named by both, with another
/// entry).
pub struct ReloadPlan {
    pub added: Vec<String>,
    pub removed: Vec<String>,
    pub changed: Vec<String>,
}

/// The position of the first entry named `name`, if any.
fn position_of(es: &Vec<(String, McpServerConfig)>, name: &str) -> (r: Option<usize>)
    ensures
        match r {
            Some(i) => i < es@.len() && names_of(es@).contains(name@) && entry_named(es@, name@) == Some(
                es@[i as int].1,
            ),
            None => !names_of(es@).contains(name@) && entry_named(es@, name@) is None,
        },
{
    let ghost all = es@;
    let n = es.len();
    assert(all.skip(0) =~= all);
    for i in 0..n
        invariant
            n == all.len(),
            all == es@,
            entry_named(all, name@) == entry_named(all.skip(i as int), name@),
            forall|j: int| 0 <= j < i ==> #[trigger] all[j].0@ != name@,
    {
        assert(all.skip(i as int)[0] == all[i as int]);
        assert(all.skip(i as int).drop_first() =~= all.skip(i + 1));
        if str_eq(es[i].0.as_str(), name) {
            assert(names_of(all)[i as int] == name@);
            return Some(i);
        }
    }
    assert(all.skip(n as int).len() == 0);
    assert forall|j: int| 0 <= j < names_of(all).len() implies names_of(all)[j] != name@ by {
        assert(names_of(all)[j] == all[j].0@);
    }
    None
}

/// The names of the entries of `es` that `base` does not name, in their order.
fn names_not_in(base: &Vec<(String, McpServerConfig)>, es: &Vec<(String, McpServerConfig)>) -> (r: Vec<
    String,
>)
    ensures
        views(r@) == names_missing_from(base@, es@),
{
    let mut r: Vec<String> = Vec::new();
    let n = es.len();
    for i in 0..n
        invariant
            n == es@.len(),
            views(r@) == names_missing_from(base@, es@.take(i as int)),
    {
        assert(es@.take(i + 1).drop_last() =~= es@.take(i as int));
        assert(es@.take(i + 1).last() == es@[i as int]);
        let ghost prev = r@;
        let name = &es[i].0;
        if position_of(base, name.as_str()).is_none() {
            r.push(name.clone());
            assert(views(r@) =~= views(prev) + seq![name@]);
        } else {
            assert(views(r@) =~= views(prev) + Seq::<Seq<char>>::empty());
        }
    }
    assert(es@.take(n as int) =~= es@);
    r
}

/// What reloading `old` into `new` does: the servers that `new` adds, those it removes,
/// and those it keeps with another entry, each in the order of its configuration.
pub fn reload_plan(old: &AppConfig, new: &AppConfig) -> (r: ReloadPlan)
    ensures
        views(r.added@) == names_missing_from(old.mcp_servers@, new.mcp_servers@),
        views(r.removed@) == names_missing_from(new.mcp_servers@, old.mcp_servers@),
        views(r.changed@) == changed_names(old.mcp_servers@, new.mcp_servers@),
{
    let added = names_not_in(&old.mcp_servers, &new.mcp_servers);
    let removed = names_not_in(&new.mcp_servers, &old.mcp_servers);
    let ghost os = old.mcp_servers@;
    let ghost ns = new.mcp_servers@;
    let mut changed: Vec<String> = Vec::new();
    let n = new.mcp_servers.len();
    for i in 0..n
        invariant
            n == ns.len(),
            os == old.mcp_servers@,
            ns == new.mcp_servers@,
            views(changed@) == changed_names(os, ns.take(i as int)),
    {
        assert(ns.take(i + 1).drop_last() =~= ns.take(i as int));
        assert(ns.take(i + 1).last() == ns[i as int]);
        let ghost prev = changed@;
        let entry = &new.mcp_servers[i];
        match position_of(&old.mcp_servers, entry.0.as_str()) {
            Some(j) => {
                if !same_entry(&old.mcp_servers[j].1, &entry.1) {
                    changed.push(entry.0.clone());
                    assert(views(changed@) =~= views(prev) + seq![entry.0@]);
                } else {
                    assert(views(changed@) =~= views(prev) + Seq::<Seq<char>>::empty());
                }
            },
            None => {
                assert(views(changed@) =~= views(prev) + Seq::<Seq<char>>::empty());
            },
        }
    }
    assert(ns.take(n as int) =~= ns);
    ReloadPlan { added, removed, changed }
}

/// A name is missing from `base` among the entries of `es` exactly when `es` names it
/// and `base` does not.
proof fn lemma_missing_contains(base: Seq<(String, McpServerConfig)>, es: Seq<(String, McpServerConfig)>, x: Seq<char>)
    ensures
        names_missing_from(base, es).contains(x) <==> (names_of(es).contains(x) && !names_of(base).contains(x)),
    decreases es.len(),
{
    if es.len() > 0 {
        let rest = es.drop_last();
        let e = es.last();
        lemma_missing_contains(base, rest, x);
        assert(names_of(es) =~= names_of(rest).push(e.0@));
        let tail = if names_of(base).contains(e.0@) {
            Seq::<Seq<char>>::empty()
        } else {
            seq![e.0@]
        };
        let all = names_missing_from(base, rest) + tail;
        if all.contains(x) {
            let k = choose|k: int| 0 <= k < all.len() && all[k] == x;
            if k >= names_missing_from(base, rest).len() {
                assert(tail[k - names_missing_from(base, rest).len()] == x);
                assert(names_of(es)[es.len() - 1] == x);
            } else {
                assert(names_missing_from(base, rest)[k] == x);
                assert(names_missing_from(base, rest).contains(x));
                let m = choose|m: int| 0 <= m < names_of(rest).len() && names_of(rest)[m] == x;
                assert(names_of(es)[m] == x);
            }
        }
        if names_of(es).contains(x) && !names_of(base).contains(x) {
            let m = choose|m: int| 0 <= m < names_of(es).len() && names_of(es)[m] == x;
            if m == es.len() - 1 {
                assert(all[all.len() - 1] == x);
            } else {
                assert(names_of(rest)[m] == x);
                assert(names_missing_from(base, rest).contains(x));
                let k = choose|k: int| 0 <= k < names_missing_from(base, rest).len() && names_missing_from(base, rest)[k] == x;
                assert(all[k] == x);
            }
        }
    }
}

/// Reloading `old` into `new` and applying the plan leaves exactly the servers that
/// `new` names: the old names without the removed ones, with the added ones.
pub proof fn law_reload_reaches_new(old: AppConfig, new: AppConfig)
    ensures
        names_of(old.mcp_servers@).to_set().difference(
            names_missing_from(new.mcp_servers@, old.mcp_servers@).to_set(),
        ).union(names_missing_from(old.mcp_servers@, new.mcp_servers@).to_set())
            == names_of(new.mcp_servers@).to_set(),
{
    let os = old.mcp_servers@;
    let ns = new.mcp_servers@;
    let lhs = names_of(os).to_set().difference(names_missing_from(ns, os).to_set()).union(
        names_missing_from(os, ns).to_set(),
    );
    assert forall|x: Seq<char>| lhs.contains(x) <==> names_of(ns).to_set().contains(x) by {
        lemma_missing_contains(ns, os, x);
        lemma_missing_contains(os, ns, x);
    }
    assert(lhs =~= names_of(ns).to_set());
}

/// Under distinct names, the first entry of an entry's name is that entry.
proof fn lemma_entry_named_at(es: Seq<(String, McpServerConfig)>, i: int)
    requires
        0 <= i < es.len(),
        forall|a: int, b: int| 0 <= a < b < es.len() ==> #[trigger] es[a].0@ != #[trigger] es[b].0@,
    ensures
        entry_named(es, es[i].0@) == Some(es[i].1),
    decreases es.len(),
{
    if i > 0 {
        let rest = es.drop_first();
        assert(es[0].0@ != es[i].0@);
        assert(rest[i - 1] == es[i]);
        assert forall|a: int, b: int| 0 <= a < b < rest.len() implies #[trigger] rest[a].0@ != #[trigger] rest[b].0@ by {
            assert(rest[a] == es[a + 1]);
            assert(rest[b] == es[b + 1]);
        }
        lemma_entry_named_at(rest, i - 1);
    }
}

/// A reload into the same configuration (with distinct names) adds, removes and
/// reconnects nothing.
pub proof fn law_unchanged_reload_does_nothing(c: AppConfig)
    requires
        c.names_distinct(),
    ensures
        names_missing_from(c.mcp_servers@, c.mcp_servers@) == Seq::<Seq<char>>::empty(),
        changed_names(c.mcp_servers@, c.mcp_servers@) == Seq::<Seq<char>>::empty(),
{
    let es = c.mcp_servers@;
    assert forall|x: Seq<char>| !names_missing_from(es, es).contains(x) by {
        lemma_missing_contains(es, es, x);
    }
    if names_missing_from(es, es).len() > 0 {
        assert(names_missing_from(es, es).contains(names_missing_from(es, es)[0]));
    }
    lemma_none_changed(es, es.len() as int);
    assert(es.take(es.len() as int) =~= es);
}

/// No entry of a configuration with distinct names is changed against itself.
proof fn lemma_none_changed(es: Seq<(String, McpServerConfig)>, k: int)
    requires
        0 <= k <= es.len(),
        forall|a: int, b: int| 0 <= a < b < es.len() ==> #[trigger] es[a].0@ != #[trigger] es[b].0@,
    ensures
        changed_names(es, es.take(k)) == Seq::<Seq<char>>::empty(),
    decreases k,
{
    if k > 0 {
        lemma_none_changed(es, k - 1);
        assert(es.take(k).drop_last() =~= es.take(k - 1));
        assert(es.take(k).last() == es[k - 1]);
        lemma_entry_named_at(es, k - 1);
        assert(changed_names(es, es.take(k)) =~= Seq::<Seq<char>>::empty());
    } else {
        assert(es.take(0).len() == 0);
    }
}

/// Two entries agree field by field: same command, arguments, environment, url, type,
/// headers, disabled tools and OAuth settings.
pub open spec fn entries_agree(a: McpServerConfig, b: McpServerConfig) -> bool {
    &&& opt_view(a.command) == opt_view(b.command)
    &&& opt_views(a.args) == opt_views(b.args)
    &&& opt_map_view(a.env) == opt_map_view(b.env)
    &&& opt_view(a.url) == opt_view(b.url)
    &&& opt_view(a.server_type) == opt_view(b.server_type)
    &&& opt_map_view(a.headers) == opt_map_view(b.headers)
    &&& opt_views(a.disabled_tools) == opt_views(b.disabled_tools)
    &&& oauth_view(a.oauth) == oauth_view(b.oauth)
}

/// Two entries count as the same exactly when they agree in every field: an entry whose
/// url (or any other field) is changed is a different entry.
pub proof fn law_same_entry_compares_every_field(a: McpServerConfig, b: McpServerConfig)
    ensures
        entry_model(a) == entry_model(b) <==> entries_agree(a, b),
        opt_view(a.url) != opt_view(b.url) ==> entry_model(a) != entry_model(b),
{
}

/// A name the new configuration lists with a changed entry is in the changed names.
proof fn lemma_changed_listed(old: Seq<(String, McpServerConfig)>, new: Seq<(String, McpServerConfig)>, i: int)
    requires
        0 <= i < new.len(),
        entry_changed(old, new[i]),
    ensures
        changed_names(old, new).contains(new[i].0@),
    decreases new.len(),
{
    let rest = new.drop_last();
    if i == new.len() - 1 {
        let c = changed_names(old, new);
        assert(c[c.len() - 1] == new[i].0@);
    } else {
        assert(rest[i] == new[i]);
        lemma_changed_listed(old, rest, i);
        let k = choose|k: int| 0 <= k < changed_names(old, rest).len() && changed_names(old, rest)[k] == new[i].0@;
        assert(changed_names(old, new)[k] == new[i].0@);
    }
}

/// When a reload keeps a server's name (the old configuration's names being distinct)
/// but its entry disagrees in some field, such as its url, the server is reconnected:
/// its name is among the changed ones.
pub proof fn law_changed_entry_reconnects(old: AppConfig, new: AppConfig, i: int, j: int)
    requires
        old.names_distinct(),
        0 <= i < new.mcp_servers@.len(),
        0 <= j < old.mcp_servers@.len(),
        old.mcp_servers@[j].0@ == new.mcp_servers@[i].0@,
        !entries_agree(old.mcp_servers@[j].1, new.mcp_servers@[i].1),
    ensures
        changed_names(old.mcp_servers@, new.mcp_servers@).contains(new.mcp_servers@[i].0@),
{
    let os = old.mcp_servers@;
    lemma_entry_named_at(os, j);
    law_same_entry_compares_every_field(os[j].1, new.mcp_servers@[i].1);
    assert(entry_changed(os, new.mcp_servers@[i]));
    lemma_changed_listed(os, new.mcp_servers@, i);
}

} // verus!
