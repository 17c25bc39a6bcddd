use vstd::prelude::*;
use crate::launch::LaunchState;
use crate::store::StoreModel;

verus! {

/// An alias can be added only once: after a batch holding `a` was accepted,
/// every later batch that holds `a` anywhere conflicts.
pub proof fn lemma_alias_added_once(
    s: StoreModel,
    id: int,
    batch: Seq<Seq<char>>,
    a: Seq<char>,
    later: Seq<Seq<char>>,
)
    requires
        s.wf(),
        s.has_project(id),
        !s.batch_conflicts(batch),
        batch.contains(a),
        later.contains(a),
    ensures
        s.add_aliases(id, batch).has_alias(a),
        s.add_aliases(id, batch).batch_conflicts(later),
{
    let s2 = s.add_aliases(id, batch);
    let rows = s.new_alias_rows(id, batch);
    let k = choose|k: int| 0 <= k < batch.len() && batch[k] == a;
    let n = s.aliases.len() as int;
    assert(s2.aliases[n + k] == rows[k]);
    assert(s2.aliases[n + k].alias == a);
    let m = choose|m: int| 0 <= m < later.len() && later[m] == a;
    assert(s2.has_alias(later[m]));
}

/// After a non-empty batch is added to a project, exactly one alias of the
/// project is primary; when the project had no alias before, it is the first
/// of the batch.
pub proof fn lemma_batch_has_one_primary(s: StoreModel, id: int, batch: Seq<Seq<char>>)
    requires
        s.wf(),
        s.has_project(id),
        !s.batch_conflicts(batch),
        batch.len() >= 1,
    ensures
        exists|i: int|
            0 <= i < s.add_aliases(id, batch).aliases.len()
                && #[trigger] s.add_aliases(id, batch).aliases[i].id == id
                && s.add_aliases(id, batch).aliases[i].primary && forall|j: int|
                0 <= j < s.add_aliases(id, batch).aliases.len()
                    && #[trigger] s.add_aliases(id, batch).aliases[j].id == id
                    && s.add_aliases(id, batch).aliases[j].primary ==> j == i,
        !s.has_aliases(id) ==> forall|j: int|
            0 <= j < s.add_aliases(id, batch).aliases.len()
                && #[trigger] s.add_aliases(id, batch).aliases[j].id == id
                ==> (s.add_aliases(id, batch).aliases[j].primary <==> s.add_aliases(
                id,
                batch,
            ).aliases[j].alias == batch[0]),
{
    let s2 = s.add_aliases(id, batch);
    let rows = s.new_alias_rows(id, batch);
    let n = s.aliases.len() as int;
    s.lemma_add_aliases_wf(id, batch);
    assert(s2.aliases[n] == rows[0]);
    assert(s2.aliases[n].id == id);
    lemma_one_primary_per_project(s2, id);
    if !s.has_aliases(id) {
        assert forall|j: int| 0 <= j < s2.aliases.len() && #[trigger] s2.aliases[j].id == id implies (
        s2.aliases[j].primary <==> s2.aliases[j].alias == batch[0]) by {
            if j < n {
                assert(s.aliases[j].id == id);
            } else {
                assert(s2.aliases[j] == rows[j - n]);
                if j > n {
                    assert(batch[0] != batch[j - n]);
                }
            }
        }
    }
}

/// In a well-formed store, every project with an alias has exactly one
/// primary alias.
pub proof fn lemma_one_primary_per_project(s: StoreModel, id: int)
    requires
        s.wf(),
        s.has_aliases(id),
    ensures
        exists|i: int|
            0 <= i < s.aliases.len() && #[trigger] s.aliases[i].id == id && s.aliases[i].primary
                && forall|j: int|
                0 <= j < s.aliases.len() && #[trigger] s.aliases[j].id == id && s.aliases[j].primary
                    ==> j == i,
{
    let k = choose|k: int| 0 <= k < s.aliases.len() && s.aliases[k].id == id;
    assert(s.has_primary(s.aliases[k].id));
    let i = choose|i: int| 0 <= i < s.aliases.len() && s.aliases[i].id == id && s.aliases[i].primary;
    assert forall|j: int|
        0 <= j < s.aliases.len() && #[trigger] s.aliases[j].id == id && s.aliases[j].primary
            implies j == i by {
        if j < i {
            assert(!(s.aliases[j].primary && s.aliases[i].primary));
        } else if i < j {
            assert(!(s.aliases[i].primary && s.aliases[j].primary));
        }
    }
}

/// The primary alias of a project that has another alias is guarded: its
/// removal is refused.
pub proof fn lemma_primary_is_guarded(s: StoreModel, i: int, j: int)
    requires
        s.wf(),
        0 <= i < s.aliases.len(),
        0 <= j < s.aliases.len(),
        i != j,
        s.aliases[i].primary,
        s.aliases[j].id == s.aliases[i].id,
    ensures
        s.is_guarded(s.aliases[i].alias),
{
}

/// The only alias of a project is not guarded: its removal goes through, and
/// leaves every other alias in place.
pub proof fn lemma_sole_alias_removable(s: StoreModel, i: int)
    requires
        s.wf(),
        0 <= i < s.aliases.len(),
        forall|j: int| 0 <= j < s.aliases.len() && j != i ==> #[trigger] s.aliases[j].id != s.aliases[i].id,
    ensures
        s.has_alias(s.aliases[i].alias),
        !s.is_guarded(s.aliases[i].alias),
        s.remove_alias(s.aliases[i].alias).wf(),
        !s.remove_alias(s.aliases[i].alias).has_alias(s.aliases[i].alias),
{
    let a = s.aliases[i].alias;
    if s.is_guarded(a) {
        let (k, j) = choose|k: int, j: int|
            0 <= k < s.aliases.len() && 0 <= j < s.aliases.len() && k != j
                && #[trigger] s.aliases[k].alias == a && s.aliases[k].primary
                && #[trigger] s.aliases[j].id == s.aliases[k].id;
        if k < i {
            assert(s.aliases[k].alias != s.aliases[i].alias);
        } else if i < k {
            assert(s.aliases[i].alias != s.aliases[k].alias);
        }
    }
    s.lemma_remove_alias_wf(a);
    let pred = |x: crate::records::AliasView| x.alias != a;
    let f = s.remove_alias(a).aliases;
    if s.remove_alias(a).has_alias(a) {
        let m = choose|m: int| 0 <= m < f.len() && f[m].alias == a;
        s.aliases.lemma_filter_pred(pred, m);
    }
}

/// Removing a project removes it and every alias of it; a former alias then
/// names nothing, unless another project carries it as display name.
pub proof fn lemma_removed_project_forgotten(s: StoreModel, id: int, a: Seq<char>)
    requires
        s.wf(),
        s.has_project(id),
        s.is_alias_of(a, id),
        !s.remove_project(id).has_name(a),
    ensures
        !s.remove_project(id).has_project(id),
        !s.remove_project(id).has_aliases(id),
        !s.remove_project(id).names_something(a),
{
    let s2 = s.remove_project(id);
    let ppred = |p: crate::records::ProjectView| p.id != id;
    let apred = |x: crate::records::AliasView| x.id != id;
    if s2.has_project(id) {
        let m = choose|m: int| 0 <= m < s2.projects.len() && s2.projects[m].id == id;
        s.projects.lemma_filter_pred(ppred, m);
    }
    if s2.has_aliases(id) {
        let m = choose|m: int| 0 <= m < s2.aliases.len() && s2.aliases[m].id == id;
        s.aliases.lemma_filter_pred(apred, m);
    }
    if s2.has_alias(a) {
        let m = choose|m: int| 0 <= m < s2.aliases.len() && s2.aliases[m].alias == a;
        s.aliases.lemma_filter_pred(apred, m);
        crate::store::lemma_filter_pairwise(s.aliases, apred, |x: crate::records::AliasView, y: crate::records::AliasView| true);
        let k = choose|k: int| 0 <= k < s.aliases.len() && s.aliases[k] == s2.aliases[m];
        let w = choose|w: int| 0 <= w < s.aliases.len() && s.aliases[w].alias == a && s.aliases[w].id == id;
        if k < w {
            assert(s.aliases[k].alias != s.aliases[w].alias);
        } else if w < k {
            assert(s.aliases[w].alias != s.aliases[k].alias);
        }
    }
}

/// A project added under a name that names nothing yet is what a lookup by
/// that name finds, with its manifest text as given.
pub proof fn lemma_add_then_get(s: StoreModel, name: Seq<char>, toml: Seq<char>)
    requires
        s.wf(),
        s.next_id < i32::MAX,
        !s.names_something(name),
    ensures
        s.add_project(name, toml).is_first_match(seq![name], s.projects.len() as int),
        s.add_project(name, toml).projects[s.projects.len() as int].toml == toml,
        forall|i: int| #[trigger] s.add_project(name, toml).is_first_match(seq![name], i) ==> i == s.projects.len(),
{
    let s2 = s.add_project(name, toml);
    let n = s.projects.len() as int;
    let names = seq![name];
    assert(s2.matches(s2.projects[n], names)) by {
        assert forall|k: int| 0 <= k < names.len() implies (#[trigger] names[k] == s2.projects[n].name
            || s2.is_alias_of(names[k], s2.projects[n].id)) by {
            assert(names[k] == name);
        }
    }
    assert forall|j: int| 0 <= j < n implies !s2.matches(#[trigger] s2.projects[j], names) by {
        assert(s2.projects[j] == s.projects[j]);
        if s2.matches(s2.projects[j], names) {
            assert(names[0] == name);
            if names[0] == s2.projects[j].name {
                assert(s.has_name(name));
            } else {
                assert(s2.is_alias_of(name, s2.projects[j].id));
                let w = choose|w: int| 0 <= w < s2.aliases.len() && s2.aliases[w].alias == name && s2.aliases[w].id == s2.projects[j].id;
                assert(s.has_alias(name));
            }
        }
    }
}

/// Flipping the session-wrapper flag twice restores the store.
pub proof fn lemma_double_toggle(s: StoreModel)
    ensures
        s.set_uwsm(None).set_uwsm(None) == s,
{
}

/// A program that fails to spawn ends the launch there: the state names its
/// index, and no later event moves the launch on to another program.
pub proof fn lemma_failed_spawn_ends_launch(i: usize, count: nat, later: bool)
    requires
        i < count,
    ensures
        LaunchState::Launching(i).advance(false, count) == LaunchState::Failed(i),
        LaunchState::Failed(i).advance(later, count) == LaunchState::Failed(i),
{
}

} // verus!
