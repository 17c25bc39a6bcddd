use vstd::prelude::*;
use crate::records::{AliasView, ProjectView};

verus! {

/// The abstract content of the project store.
pub ghost struct StoreModel {
    pub projects: Seq<ProjectView>,
    pub aliases: Seq<AliasView>,
    pub uwsm: bool,
    /// The identifier that the next added project receives.
    pub next_id: int,
}

impl StoreModel {
    pub open spec fn empty() -> StoreModel {
        StoreModel { projects: seq![], aliases: seq![], uwsm: false, next_id: 1 }
    }

    pub open spec fn has_project(self, id: int) -> bool {
        exists|i: int| 0 <= i < self.projects.len() && #[trigger] self.projects[i].id == id
    }

    pub open spec fn has_alias(self, a: Seq<char>) -> bool {
        exists|i: int| 0 <= i < self.aliases.len() && #[trigger] self.aliases[i].alias == a
    }

    /// The project has at least one alias.
    pub open spec fn has_aliases(self, id: int) -> bool {
        exists|i: int| 0 <= i < self.aliases.len() && #[trigger] self.aliases[i].id == id
    }

    pub open spec fn is_alias_of(self, a: Seq<char>, id: int) -> bool {
        exists|i: int|
            0 <= i < self.aliases.len() && #[trigger] self.aliases[i].alias == a
                && self.aliases[i].id == id
    }

    pub open spec fn wf(self) -> bool {
        &&& 1 <= self.next_id <= i32::MAX
        &&& forall|i: int|
            0 <= i < self.projects.len() ==> 1 <= #[trigger] self.projects[i].id < self.next_id
        &&& forall|i: int, j: int|
            0 <= i < j < self.projects.len() ==> self.projects[i].id < self.projects[j].id
        &&& forall|i: int, j: int|
            0 <= i < j < self.aliases.len() ==> self.aliases[i].alias != self.aliases[j].alias
        &&& forall|i: int|
            0 <= i < self.aliases.len() ==> self.has_project(#[trigger] self.aliases[i].id)
        &&& forall|i: int, j: int|
            0 <= i < j < self.aliases.len() && self.aliases[i].id == self.aliases[j].id
                ==> !(self.aliases[i].primary && self.aliases[j].primary)
        &&& forall|i: int|
            0 <= i < self.aliases.len() ==> self.has_primary(#[trigger] self.aliases[i].id)
    }

    /// Every candidate names the project, by its display name or by one of its
    /// aliases.
    pub open spec fn matches(self, p: ProjectView, names: Seq<Seq<char>>) -> bool {
        forall|k: int|
            0 <= k < names.len() ==> (#[trigger] names[k] == p.name || self.is_alias_of(
                names[k],
                p.id,
            ))
    }

    /// Project `i` is the first project, in store order, that a non-empty
    /// candidate list matches.
    pub open spec fn is_first_match(self, names: Seq<Seq<char>>, i: int) -> bool {
        &&& 0 <= i < self.projects.len()
        &&& names.len() > 0
        &&& self.matches(self.projects[i], names)
        &&& forall|j: int| 0 <= j < i ==> !self.matches(#[trigger] self.projects[j], names)
    }

    pub open spec fn any_match(self, names: Seq<Seq<char>>) -> bool {
        names.len() > 0 && exists|i: int|
            0 <= i < self.projects.len() && self.matches(#[trigger] self.projects[i], names)
    }

    /// `name` resolves to project `id`: the project owning alias `name` when
    /// there is one, else the first project, in store order, with that display
    /// name.
    pub open spec fn resolves_to(self, name: Seq<char>, id: int) -> bool {
        if self.has_alias(name) {
            self.is_alias_of(name, id)
        } else {
            exists|i: int|
                0 <= i < self.projects.len() && #[trigger] self.projects[i].name == name
                    && self.projects[i].id == id && forall|j: int|
                    0 <= j < i ==> #[trigger] self.projects[j].name != name
        }
    }

    pub open spec fn has_name(self, name: Seq<char>) -> bool {
        exists|i: int| 0 <= i < self.projects.len() && #[trigger] self.projects[i].name == name
    }

    /// `name` is an alias or a display name in the store.
    pub open spec fn names_something(self, name: Seq<char>) -> bool {
        self.has_alias(name) || self.has_name(name)
    }

    pub open spec fn add_project(self, name: Seq<char>, toml: Seq<char>) -> StoreModel {
        StoreModel {
            projects: self.projects.push(ProjectView { id: self.next_id, name, toml }),
            next_id: self.next_id + 1,
            ..self
        }
    }

    /// The rows that a batch of aliases adds to project `id`: the first one is
    /// primary exactly when the project has no alias yet.
    pub open spec fn new_alias_rows(self, id: int, batch: Seq<Seq<char>>) -> Seq<AliasView> {
        Seq::new(
            batch.len(),
            |k: int| AliasView { id, alias: batch[k], primary: k == 0 && !self.has_aliases(id) },
        )
    }

    pub open spec fn add_aliases(self, id: int, batch: Seq<Seq<char>>) -> StoreModel {
        StoreModel { aliases: self.aliases + self.new_alias_rows(id, batch), ..self }
    }

    /// The batch repeats an alias, or holds one that is already taken.
    pub open spec fn batch_conflicts(self, batch: Seq<Seq<char>>) -> bool {
        (exists|k1: int, k2: int|
            0 <= k1 < k2 < batch.len() && #[trigger] batch[k1] == #[trigger] batch[k2]) || (
        exists|k: int| 0 <= k < batch.len() && self.has_alias(#[trigger] batch[k]))
    }

    /// `a` is the primary alias of a project that has other aliases too.
    pub open spec fn is_guarded(self, a: Seq<char>) -> bool {
        exists|i: int, j: int|
            0 <= i < self.aliases.len() && 0 <= j < self.aliases.len() && i != j
                && #[trigger] self.aliases[i].alias == a && self.aliases[i].primary
                && #[trigger] self.aliases[j].id == self.aliases[i].id
    }

    pub open spec fn remove_alias(self, a: Seq<char>) -> StoreModel {
        StoreModel { aliases: self.aliases.filter(|x: AliasView| x.alias != a), ..self }
    }

    /// The store without project `id` and without every alias of it.
    pub open spec fn remove_project(self, id: int) -> StoreModel {
        StoreModel {
            projects: self.projects.filter(|p: ProjectView| p.id != id),
            aliases: self.aliases.filter(|x: AliasView| x.id != id),
            ..self
        }
    }

    pub open spec fn replace_toml(self, id: int, toml: Seq<char>) -> StoreModel {
        StoreModel {
            projects: self.projects.map_values(
                |p: ProjectView|
                    if p.id == id {
                        ProjectView { toml, ..p }
                    } else {
                        p
                    },
            ),
            ..self
        }
    }

    /// Sets the session-wrapper flag to `value`, or flips it when no value is
    /// given.
    pub open spec fn set_uwsm(self, value: Option<bool>) -> StoreModel {
        StoreModel {
            uwsm: match value {
                Some(v) => v,
                None => !self.uwsm,
            },
            ..self
        }
    }

    /// The texts of the aliases of project `id`, in store order.
    pub open spec fn aliases_of(self, id: int) -> Seq<Seq<char>> {
        self.aliases.filter(|x: AliasView| x.id == id).map_values(|x: AliasView| x.alias)
    }

    pub open spec fn has_primary(self, id: int) -> bool {
        exists|j: int|
            0 <= j < self.aliases.len() && #[trigger] self.aliases[j].id == id
                && self.aliases[j].primary
    }

    pub proof fn lemma_add_project_wf(self, name: Seq<char>, toml: Seq<char>)
        requires
            self.wf(),
            self.next_id < i32::MAX,
        ensures
            self.add_project(name, toml).wf(),
    {
        let s = self.add_project(name, toml);
        assert forall|i: int| 0 <= i < s.aliases.len() implies s.has_project(
            #[trigger] s.aliases[i].id,
        ) by {
            let j = choose|j: int| 0 <= j < self.projects.len() && self.projects[j].id == self.aliases[i].id;
            assert(s.projects[j] == self.projects[j]);
        }
    }

    pub proof fn lemma_add_aliases_wf(self, id: int, batch: Seq<Seq<char>>)
        requires
            self.wf(),
            self.has_project(id),
            !self.batch_conflicts(batch),
        ensures
            self.add_aliases(id, batch).wf(),
    {
        let s = self.add_aliases(id, batch);
        let rows = self.new_alias_rows(id, batch);
        let n = self.aliases.len() as int;
        assert forall|i: int, j: int| 0 <= i < j < s.aliases.len() implies s.aliases[i].alias
            != s.aliases[j].alias by {
            if j >= n {
                assert(s.aliases[j].alias == batch[j - n]);
                if i >= n {
                    assert(s.aliases[i].alias == batch[i - n]);
                } else {
                    assert(s.aliases[i] == self.aliases[i]);
                    assert(!self.has_alias(batch[j - n]));
                }
            }
        }
        assert forall|i: int| 0 <= i < s.aliases.len() implies s.has_project(
            #[trigger] s.aliases[i].id,
        ) by {
            if i < n {
                assert(s.aliases[i] == self.aliases[i]);
                assert(self.has_project(self.aliases[i].id));
                let j = choose|j: int|
                    0 <= j < self.projects.len() && self.projects[j].id == self.aliases[i].id;
                assert(s.projects[j].id == s.aliases[i].id);
            } else {
                assert(s.aliases[i] == rows[i - n]);
                let j = choose|j: int| 0 <= j < self.projects.len() && self.projects[j].id == id;
                assert(s.projects[j].id == id);
            }
        }
        assert forall|i: int, j: int|
            0 <= i < j < s.aliases.len() && s.aliases[i].id == s.aliases[j].id implies !(
            s.aliases[i].primary && s.aliases[j].primary) by {
            if j >= n && s.aliases[j].primary {
                assert(j - n == 0 && !self.has_aliases(id));
                if i < n {
                    assert(self.aliases[i].id == id);
                }
            }
        }
        assert forall|i: int| 0 <= i < s.aliases.len() implies s.has_primary(
            #[trigger] s.aliases[i].id,
        ) by {
            if i < n {
                assert(s.aliases[i] == self.aliases[i]);
                assert(self.has_primary(self.aliases[i].id));
                let j = choose|j: int|
                    0 <= j < n && self.aliases[j].id == self.aliases[i].id
                        && self.aliases[j].primary;
                assert(s.aliases[j] == self.aliases[j]);
                assert(s.aliases[j].id == s.aliases[i].id && s.aliases[j].primary);
            } else if self.has_aliases(id) {
                assert(s.aliases[i] == rows[i - n]);
                let k = choose|k: int| 0 <= k < n && self.aliases[k].id == id;
                assert(self.has_primary(self.aliases[k].id));
                let j = choose|j: int|
                    0 <= j < n && self.aliases[j].id == self.aliases[k].id
                        && self.aliases[j].primary;
                assert(s.aliases[j] == self.aliases[j]);
                assert(s.aliases[j].id == s.aliases[i].id && s.aliases[j].primary);
            } else {
                assert(s.aliases[i] == rows[i - n]);
                assert(s.aliases[n] == rows[0]);
                assert(rows[0].primary && rows[0].id == id);
                assert(s.aliases[n].id == s.aliases[i].id && s.aliases[n].primary);
            }
        }
    }

    /// Changing the settings or the manifest texts keeps the store well formed.
    pub proof fn lemma_same_rows_wf(self, other: StoreModel)
        requires
            self.wf(),
            other.aliases == self.aliases,
            other.next_id == self.next_id,
            other.projects.len() == self.projects.len(),
            forall|i: int| 0 <= i < self.projects.len() ==> #[trigger] other.projects[i].id == self.projects[i].id,
        ensures
            other.wf(),
    {
        assert forall|i: int| 0 <= i < other.aliases.len() implies other.has_project(
            #[trigger] other.aliases[i].id,
        ) by {
            assert(self.has_project(self.aliases[i].id));
            let j = choose|j: int|
                0 <= j < self.projects.len() && self.projects[j].id == self.aliases[i].id;
            assert(other.projects[j].id == other.aliases[i].id);
        }
        assert forall|i: int, j: int| 0 <= i < j < other.projects.len() implies other.projects[i].id < other.projects[j].id by {
            assert(other.projects[i].id == self.projects[i].id);
            assert(other.projects[j].id == self.projects[j].id);
        }
    }

    pub proof fn lemma_remove_alias_wf(self, a: Seq<char>)
        requires
            self.wf(),
            !self.is_guarded(a),
        ensures
            self.remove_alias(a).wf(),
    {
        let pred = |x: AliasView| x.alias != a;
        let s = self.remove_alias(a);
        let f = s.aliases;
        let r1 = |x: AliasView, y: AliasView| x.alias != y.alias;
        let r2 = |x: AliasView, y: AliasView| x.id == y.id ==> !(x.primary && y.primary);
        lemma_filter_pairwise(self.aliases, pred, r1);
        lemma_filter_pairwise(self.aliases, pred, r2);
        assert forall|i: int, j: int| 0 <= i < j < f.len() implies f[i].alias != f[j].alias by {
            assert(r1(f[i], f[j]));
        }
        assert forall|i: int, j: int| 0 <= i < j < f.len() && f[i].id == f[j].id implies !(
        f[i].primary && f[j].primary) by {
            assert(r2(f[i], f[j]));
        }
        assert forall|i: int| 0 <= i < f.len() implies s.has_project(#[trigger] f[i].id) by {
            let k = choose|k: int| 0 <= k < self.aliases.len() && self.aliases[k] == f[i];
            assert(self.has_project(self.aliases[k].id));
            let j = choose|j: int|
                0 <= j < self.projects.len() && self.projects[j].id == self.aliases[k].id;
            assert(s.projects[j].id == f[i].id);
        }
        assert forall|i: int| 0 <= i < f.len() implies s.has_primary(#[trigger] f[i].id) by {
            let k = choose|k: int| 0 <= k < self.aliases.len() && self.aliases[k] == f[i];
            assert(self.has_primary(self.aliases[k].id));
            let j = choose|j: int|
                0 <= j < self.aliases.len() && self.aliases[j].id == self.aliases[k].id
                    && self.aliases[j].primary;
            self.aliases.lemma_filter_pred(pred, i);
            if self.aliases[j].alias == a {
                assert(k != j);
                assert(self.is_guarded(a));
            }
            self.aliases.lemma_filter_contains(pred, j);
            let m = choose|m: int| 0 <= m < f.len() && f[m] == self.aliases[j];
            assert(f[m].id == f[i].id && f[m].primary);
        }
    }

    pub proof fn lemma_remove_project_wf(self, id: int)
        requires
            self.wf(),
        ensures
            self.remove_project(id).wf(),
    {
        let ppred = |p: ProjectView| p.id != id;
        let apred = |x: AliasView| x.id != id;
        let s = self.remove_project(id);
        let f = s.aliases;
        let fp = s.projects;
        let r0 = |x: ProjectView, y: ProjectView| x.id < y.id;
        let r1 = |x: AliasView, y: AliasView| x.alias != y.alias;
        let r2 = |x: AliasView, y: AliasView| x.id == y.id ==> !(x.primary && y.primary);
        lemma_filter_pairwise(self.projects, ppred, r0);
        lemma_filter_pairwise(self.aliases, apred, r1);
        lemma_filter_pairwise(self.aliases, apred, r2);
        assert forall|i: int, j: int| 0 <= i < j < fp.len() implies fp[i].id < fp[j].id by {
            assert(r0(fp[i], fp[j]));
        }
        assert forall|i: int, j: int| 0 <= i < j < f.len() implies f[i].alias != f[j].alias by {
            assert(r1(f[i], f[j]));
        }
        assert forall|i: int, j: int| 0 <= i < j < f.len() && f[i].id == f[j].id implies !(
        f[i].primary && f[j].primary) by {
            assert(r2(f[i], f[j]));
        }
        assert forall|i: int| 0 <= i < fp.len() implies 1 <= #[trigger] fp[i].id < s.next_id by {
            let k = choose|k: int| 0 <= k < self.projects.len() && self.projects[k] == fp[i];
        }
        assert forall|i: int| 0 <= i < f.len() implies s.has_project(#[trigger] f[i].id) by {
            let k = choose|k: int| 0 <= k < self.aliases.len() && self.aliases[k] == f[i];
            assert(self.has_project(self.aliases[k].id));
            let j = choose|j: int|
                0 <= j < self.projects.len() && self.projects[j].id == self.aliases[k].id;
            self.aliases.lemma_filter_pred(apred, i);
            self.projects.lemma_filter_contains(ppred, j);
            let m = choose|m: int| 0 <= m < fp.len() && fp[m] == self.projects[j];
            assert(fp[m].id == f[i].id);
        }
        assert forall|i: int| 0 <= i < f.len() implies s.has_primary(#[trigger] f[i].id) by {
            let k = choose|k: int| 0 <= k < self.aliases.len() && self.aliases[k] == f[i];
            assert(self.has_primary(self.aliases[k].id));
            let j = choose|j: int|
                0 <= j < self.aliases.len() && self.aliases[j].id == self.aliases[k].id
                    && self.aliases[j].primary;
            self.aliases.lemma_filter_pred(apred, i);
            self.aliases.lemma_filter_contains(apred, j);
            let m = choose|m: int| 0 <= m < f.len() && f[m] == self.aliases[j];
            assert(f[m].id == f[i].id && f[m].primary);
        }
    }
}

/// The parts, in order, with `sep` between each two.
pub open spec fn join(parts: Seq<Seq<char>>, sep: Seq<char>) -> Seq<char>
    decreases parts.len(),
{
    if parts.len() == 0 {
        seq![]
    } else if parts.len() == 1 {
        parts[0]
    } else {
        join(parts.drop_last(), sep) + sep + parts.last()
    }
}

/// Filtering keeps every ordered relation that held between the elements,
/// and keeps only elements of the original sequence.
pub proof fn lemma_filter_pairwise<A>(s: Seq<A>, pred: spec_fn(A) -> bool, rel: spec_fn(A, A) -> bool)
    requires
        forall|i: int, j: int| 0 <= i < j < s.len() ==> #[trigger] rel(s[i], s[j]),
    ensures
        forall|i: int, j: int|
            0 <= i < j < s.filter(pred).len() ==> #[trigger] rel(
                s.filter(pred)[i],
                s.filter(pred)[j],
            ),
        forall|i: int| 0 <= i < s.filter(pred).len() ==> s.contains(#[trigger] s.filter(pred)[i]),
    decreases s.len(),
{
    reveal(Seq::filter);
    if s.len() > 0 {
        let d = s.drop_last();
        assert forall|i: int, j: int| 0 <= i < j < d.len() implies #[trigger] rel(d[i], d[j]) by {
            assert(d[i] == s[i] && d[j] == s[j]);
        }
        lemma_filter_pairwise(d, pred, rel);
        let df = d.filter(pred);
        let f = s.filter(pred);
        assert forall|i: int| 0 <= i < df.len() implies s.contains(#[trigger] df[i]) by {
            let k = choose|k: int| 0 <= k < d.len() && d[k] == df[i];
            assert(s[k] == df[i]);
        }
        if pred(s.last()) {
            assert(f == df.push(s.last()));
            assert forall|i: int, j: int| 0 <= i < j < f.len() implies #[trigger] rel(f[i], f[j]) by {
                if j < df.len() {
                    assert(f[i] == df[i] && f[j] == df[j]);
                } else {
                    assert(f[i] == df[i]);
                    let k = choose|k: int| 0 <= k < d.len() && d[k] == df[i];
                    assert(rel(s[k], s[s.len() - 1]));
                }
            }
            assert forall|i: int| 0 <= i < f.len() implies s.contains(#[trigger] f[i]) by {
                if i < df.len() {
                    assert(f[i] == df[i]);
                } else {
                    assert(f[i] == s[s.len() - 1]);
                }
            }
        } else {
            assert(f == df);
        }
    }
}

/// One more element of a prefix, filtered.
pub proof fn lemma_filter_step<A>(s: Seq<A>, pred: spec_fn(A) -> bool, i: int)
    requires
        0 <= i < s.len(),
    ensures
        s.subrange(0, i + 1).filter(pred) == if pred(s[i]) {
            s.subrange(0, i).filter(pred).push(s[i])
        } else {
            s.subrange(0, i).filter(pred)
        },
{
    reveal(Seq::filter);
    assert(s.subrange(0, i + 1).drop_last() =~= s.subrange(0, i));
}

} // verus!
