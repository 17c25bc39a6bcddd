use vstd::prelude::*;
use crate::errors::StoreError;
use crate::records::{AliasView, alias_views, project_views, string_views, Alias, Project, Settings};
use crate::store::{join, lemma_filter_step, StoreModel};

verus! {

/// The project store: projects, their aliases and the settings record.
pub struct DB {
    projects: Vec<Project>,
    aliases: Vec<Alias>,
    settings: Settings,
    next_id: i32,
}

impl View for DB {
    type V = StoreModel;

    closed spec fn view(&self) -> StoreModel {
        StoreModel {
            projects: project_views(self.projects@),
            aliases: alias_views(self.aliases@),
            uwsm: self.settings.uwsm,
            next_id: self.next_id as int,
        }
    }
}

/// The schema version that the stored rows are kept at.
pub const SCHEMA_VERSION: u32 = 2;

impl DB {
    /// The migration steps, in order, that bring a store at `version` up to
    /// the current schema: step `v` takes it from `v - 1` to `v`. A store at or
    /// above the current schema needs none.
    pub fn pending_migrations(version: u32) -> (r: Vec<u32>)
        ensures
            r@.len() == if version < SCHEMA_VERSION {
                SCHEMA_VERSION - version
            } else {
                0
            },
            forall|k: int| 0 <= k < r@.len() ==> #[trigger] r@[k] == version + 1 + k,
    {
        let mut r: Vec<u32> = Vec::new();
        let mut v: u32 = version;
        while v < SCHEMA_VERSION
            invariant
                version <= v <= if version < SCHEMA_VERSION {
                    SCHEMA_VERSION
                } else {
                    version
                },
                r@.len() == v - version,
                forall|k: int| 0 <= k < r@.len() ==> #[trigger] r@[k] == version + 1 + k,
            decreases SCHEMA_VERSION - v,
        {
            v = v + 1;
            r.push(v);
        }
        r
    }

    /// An empty store with default settings.
    pub fn new() -> (r: DB)
        ensures
            r@ == StoreModel::empty(),
            r@.wf(),
    {
        let r = DB { projects: Vec::new(), aliases: Vec::new(), settings: Settings { uwsm: false }, next_id: 1 };
        assert(r@.projects =~= seq![]);
        assert(r@.aliases =~= seq![]);
        r
    }

    /// A store made of rows read back from storage, when they satisfy every
    /// invariant of the store.
    pub fn from_rows(projects: Vec<Project>, aliases: Vec<Alias>, settings: Settings, next_id: i32) -> (r:
        Result<DB, StoreError>)
        ensures
            match r {
                Ok(db) => db@ == (StoreModel {
                    projects: project_views(projects@),
                    aliases: alias_views(aliases@),
                    uwsm: settings.uwsm,
                    next_id: next_id as int,
                }) && db@.wf(),
                Err(e) => e == StoreError::SchemaError && !(StoreModel {
                    projects: project_views(projects@),
                    aliases: alias_views(aliases@),
                    uwsm: settings.uwsm,
                    next_id: next_id as int,
                }).wf(),
            },
    {
        let db = DB { projects, aliases, settings, next_id };
        if db.is_wf() {
            Ok(db)
        } else {
            Err(StoreError::SchemaError)
        }
    }

    /// The identifier that the next added project receives.
    pub fn next_id(&self) -> (r: i32)
        ensures
            r == self@.next_id,
    {
        self.next_id
    }

    fn is_wf(&self) -> (r: bool)
        ensures
            r == self@.wf(),
    {
        if self.next_id < 1 {
            return false;
        }
        let mut i: usize = 0;
        while i < self.projects.len()
            invariant
                i <= self.projects.len(),
                1 <= self.next_id,
                forall|a: int| 0 <= a < i ==> 1 <= #[trigger] self@.projects[a].id < self.next_id,
                forall|a: int, b: int| 0 <= a < b < i ==> self@.projects[a].id < self@.projects[b].id,
            decreases self.projects.len() - i,
        {
            let id = self.projects[i].id;
            if id < 1 || id >= self.next_id {
                assert(!(1 <= self@.projects[i as int].id < self.next_id));
                return false;
            }
            let mut j: usize = 0;
            while j < i
                invariant
                    j <= i < self.projects.len(),
                    id == self@.projects[i as int].id,
                    forall|a: int| 0 <= a < j ==> self@.projects[a].id < id,
                decreases i - j,
            {
                if self.projects[j].id >= id {
                    proof {
                        if self@.wf() {
                            assert(self@.projects[j as int].id < self@.projects[i as int].id);
                        }
                    }
                    return false;
                }
                j = j + 1;
            }
            i = i + 1;
        }
        let mut i: usize = 0;
        while i < self.aliases.len()
            invariant
                i <= self.aliases.len(),
                forall|a: int| 0 <= a < self@.projects.len() ==> 1 <= #[trigger] self@.projects[a].id < self.next_id,
                forall|a: int, b: int| 0 <= a < b < self@.projects.len() ==> self@.projects[a].id < self@.projects[b].id,
                1 <= self.next_id,
                forall|a: int, b: int| 0 <= a < b < i ==> self@.aliases[a].alias != self@.aliases[b].alias,
                forall|a: int| 0 <= a < i ==> self@.has_project(#[trigger] self@.aliases[a].id),
                forall|a: int, b: int|
                    0 <= a < b < i && self@.aliases[a].id == self@.aliases[b].id
                        ==> !(self@.aliases[a].primary && self@.aliases[b].primary),
                forall|a: int| 0 <= a < i ==> self@.has_primary(#[trigger] self@.aliases[a].id),
            decreases self.aliases.len() - i,
        {
            let id = self.aliases[i].id;
            if !self.has_project(id) || !self.has_primary(id) {
                proof {
                    if self@.wf() {
                        assert(self@.has_project(self@.aliases[i as int].id));
                        assert(self@.has_primary(self@.aliases[i as int].id));
                    }
                }
                return false;
            }
            let mut j: usize = 0;
            while j < i
                invariant
                    j <= i < self.aliases.len(),
                    id == self@.aliases[i as int].id,
                    forall|a: int| 0 <= a < j ==> self@.aliases[a].alias != self@.aliases[i as int].alias,
                    forall|a: int| 0 <= a < j && self@.aliases[a].id == id
                        ==> !(self@.aliases[a].primary && self@.aliases[i as int].primary),
                decreases i - j,
            {
                if self.aliases[j].alias == self.aliases[i].alias {
                    proof {
                        if self@.wf() {
                            assert(self@.aliases[j as int].alias != self@.aliases[i as int].alias);
                        }
                    }
                    return false;
                }
                if self.aliases[j].id == id && self.aliases[j].primary && self.aliases[i].primary {
                    proof {
                        if self@.wf() {
                            assert(!(self@.aliases[j as int].primary && self@.aliases[i as int].primary));
                        }
                    }
                    return false;
                }
                j = j + 1;
            }
            i = i + 1;
        }
        true
    }

    fn has_primary(&self, id: i32) -> (r: bool)
        ensures
            r == self@.has_primary(id as int),
    {
        let mut i: usize = 0;
        while i < self.aliases.len()
            invariant
                i <= self.aliases.len(),
                forall|j: int| 0 <= j < i ==> !(self@.aliases[j].id == id && self@.aliases[j].primary),
            decreases self.aliases.len() - i,
        {
            if self.aliases[i].id == id && self.aliases[i].primary {
                assert(self@.aliases[i as int].id == id);
                return true;
            }
            i = i + 1;
        }
        false
    }

    /// The position of the alias row whose text is `a`.
    fn find_alias(&self, a: &String) -> (r: Option<usize>)
        ensures
            match r {
                Some(k) => k < self@.aliases.len() && self@.aliases[k as int].alias == a@,
                None => !self@.has_alias(a@),
            },
    {
        let mut k: usize = 0;
        while k < self.aliases.len()
            invariant
                k <= self.aliases.len(),
                forall|j: int| 0 <= j < k ==> self@.aliases[j].alias != a@,
            decreases self.aliases.len() - k,
        {
            if self.aliases[k].alias == *a {
                return Some(k);
            }
            k = k + 1;
        }
        None
    }

    /// Whether `a` is an alias of project `id`.
    fn is_alias_of(&self, a: &String, id: i32) -> (r: bool)
        ensures
            r == self@.is_alias_of(a@, id as int),
    {
        let mut k: usize = 0;
        while k < self.aliases.len()
            invariant
                k <= self.aliases.len(),
                forall|j: int|
                    0 <= j < k ==> !(self@.aliases[j].alias == a@ && self@.aliases[j].id == id),
            decreases self.aliases.len() - k,
        {
            if self.aliases[k].id == id && self.aliases[k].alias == *a {
                assert(self@.aliases[k as int].alias == a@);
                return true;
            }
            k = k + 1;
        }
        false
    }

    /// Whether every candidate names project `p`.
    fn matches(&self, p: &Project, names: &[String]) -> (r: bool)
        ensures
            r == self@.matches(p@, string_views(names@)),
    {
        let ghost ns = string_views(names@);
        let mut k: usize = 0;
        while k < names.len()
            invariant
                k <= names.len(),
                ns == string_views(names@),
                forall|j: int| 0 <= j < k ==> (ns[j] == p@.name || self@.is_alias_of(ns[j], p@.id)),
            decreases names.len() - k,
        {
            if !(names[k] == p.name) && !self.is_alias_of(&names[k], p.id) {
                assert(!(ns[k as int] == p@.name || self@.is_alias_of(ns[k as int], p@.id)));
                return false;
            }
            k = k + 1;
        }
        true
    }

    fn has_project(&self, id: i32) -> (r: bool)
        ensures
            r == self@.has_project(id as int),
    {
        let mut i: usize = 0;
        while i < self.projects.len()
            invariant
                i <= self.projects.len(),
                forall|j: int| 0 <= j < i ==> self@.projects[j].id != id,
            decreases self.projects.len() - i,
        {
            if self.projects[i].id == id {
                assert(self@.projects[i as int].id == id);
                return true;
            }
            i = i + 1;
        }
        false
    }

    fn project_index(&self, id: i32) -> (r: Option<usize>)
        ensures
            match r {
                Some(k) => k < self@.projects.len() && self@.projects[k as int].id == id,
                None => !self@.has_project(id as int),
            },
    {
        let mut i: usize = 0;
        while i < self.projects.len()
            invariant
                i <= self.projects.len(),
                forall|j: int| 0 <= j < i ==> self@.projects[j].id != id,
            decreases self.projects.len() - i,
        {
            if self.projects[i].id == id {
                return Some(i);
            }
            i = i + 1;
        }
        None
    }

    fn has_aliases(&self, id: i32) -> (r: bool)
        ensures
            r == self@.has_aliases(id as int),
    {
        let mut i: usize = 0;
        while i < self.aliases.len()
            invariant
                i <= self.aliases.len(),
                forall|j: int| 0 <= j < i ==> self@.aliases[j].id != id,
            decreases self.aliases.len() - i,
        {
            if self.aliases[i].id == id {
                assert(self@.aliases[i as int].id == id);
                return true;
            }
            i = i + 1;
        }
        false
    }

    /// Whether the batch repeats an alias or holds one already taken.
    fn batch_conflicts(&self, batch: &Vec<String>) -> (r: bool)
        ensures
            r == self@.batch_conflicts(string_views(batch@)),
    {
        let ghost bs = string_views(batch@);
        let mut k: usize = 0;
        while k < batch.len()
            invariant
                k <= batch.len(),
                bs == string_views(batch@),
                forall|k1: int, k2: int| 0 <= k1 < k2 < k ==> bs[k1] != bs[k2],
                forall|j: int| 0 <= j < k ==> !self@.has_alias(bs[j]),
            decreases batch.len() - k,
        {
            let mut k1: usize = 0;
            while k1 < k
                invariant
                    k1 <= k < batch.len(),
                    bs == string_views(batch@),
                    forall|j: int| 0 <= j < k1 ==> bs[j] != bs[k as int],
                decreases k - k1,
            {
                if batch[k1] == batch[k] {
                    assert(bs[k1 as int] == bs[k as int]);
                    return true;
                }
                k1 = k1 + 1;
            }
            if self.find_alias(&batch[k]).is_some() {
                assert(self@.has_alias(bs[k as int]));
                return true;
            }
            k = k + 1;
        }
        false
    }

    /// Whether another alias row belongs to the same project as row `k`.
    fn has_other_alias(&self, k: usize) -> (r: bool)
        requires
            k < self.aliases.len(),
        ensures
            r == exists|j: int|
                0 <= j < self@.aliases.len() && j != k && #[trigger] self@.aliases[j].id
                    == self@.aliases[k as int].id,
    {
        let id = self.aliases[k].id;
        let mut j: usize = 0;
        while j < self.aliases.len()
            invariant
                j <= self.aliases.len(),
                k < self.aliases.len(),
                id == self@.aliases[k as int].id,
                forall|m: int| 0 <= m < j && m != k ==> self@.aliases[m].id != id,
            decreases self.aliases.len() - j,
        {
            if j != k && self.aliases[j].id == id {
                assert(self@.aliases[j as int].id == id);
                return true;
            }
            j = j + 1;
        }
        false
    }

    fn drop_alias_text(&mut self, a: &String)
        ensures
            final(self)@ == old(self)@.remove_alias(a@),
    {
        let ghost pred = |x: crate::records::AliasView| x.alias != a@;
        let ghost all = self@.aliases;
        let mut kept: Vec<Alias> = Vec::new();
        let mut i: usize = 0;
        while i < self.aliases.len()
            invariant
                i <= self.aliases.len(),
                all == self@.aliases,
                pred == (|x: crate::records::AliasView| x.alias != a@),
                alias_views(kept@) == all.subrange(0, i as int).filter(pred),
            decreases self.aliases.len() - i,
        {
            proof {
                lemma_filter_step(all, pred, i as int);
            }
            if !(self.aliases[i].alias == *a) {
                let ghost prev = kept@;
                kept.push(self.aliases[i].copy());
                assert(alias_views(kept@) =~= alias_views(prev).push(all[i as int]));
            }
            i = i + 1;
        }
        assert(all.subrange(0, i as int) =~= all);
        self.aliases = kept;
    }

    fn drop_alias_rows(&mut self, id: i32)
        ensures
            final(self)@.aliases == old(self)@.aliases.filter(
                |x: crate::records::AliasView| x.id != id as int,
            ),
            final(self)@.projects == old(self)@.projects,
            final(self)@.uwsm == old(self)@.uwsm,
            final(self)@.next_id == old(self)@.next_id,
    {
        let ghost pred = |x: crate::records::AliasView| x.id != id as int;
        let ghost all = self@.aliases;
        let mut kept: Vec<Alias> = Vec::new();
        let mut i: usize = 0;
        while i < self.aliases.len()
            invariant
                i <= self.aliases.len(),
                all == self@.aliases,
                pred == (|x: crate::records::AliasView| x.id != id as int),
                alias_views(kept@) == all.subrange(0, i as int).filter(pred),
            decreases self.aliases.len() - i,
        {
            proof {
                lemma_filter_step(all, pred, i as int);
            }
            if self.aliases[i].id != id {
                let ghost prev = kept@;
                kept.push(self.aliases[i].copy());
                assert(alias_views(kept@) =~= alias_views(prev).push(all[i as int]));
            }
            i = i + 1;
        }
        assert(all.subrange(0, i as int) =~= all);
        self.aliases = kept;
    }

    fn drop_project_row(&mut self, id: i32)
        ensures
            final(self)@.projects == old(self)@.projects.filter(
                |p: crate::records::ProjectView| p.id != id as int,
            ),
            final(self)@.aliases == old(self)@.aliases,
            final(self)@.uwsm == old(self)@.uwsm,
            final(self)@.next_id == old(self)@.next_id,
    {
        let ghost pred = |p: crate::records::ProjectView| p.id != id as int;
        let ghost all = self@.projects;
        let mut kept: Vec<Project> = Vec::new();
        let mut i: usize = 0;
        while i < self.projects.len()
            invariant
                i <= self.projects.len(),
                all == self@.projects,
                pred == (|p: crate::records::ProjectView| p.id != id as int),
                project_views(kept@) == all.subrange(0, i as int).filter(pred),
            decreases self.projects.len() - i,
        {
            proof {
                lemma_filter_step(all, pred, i as int);
            }
            if self.projects[i].id != id {
                let ghost prev = kept@;
                kept.push(self.projects[i].copy());
                assert(project_views(kept@) =~= project_views(prev).push(all[i as int]));
            }
            i = i + 1;
        }
        assert(all.subrange(0, i as int) =~= all);
        self.projects = kept;
    }
}

impl Project {
    /// The first project, in store order, that every candidate names, by its
    /// display name or by one of its aliases.
    pub fn get(db: &DB, names: &[String]) -> (r: Result<Project, StoreError>)
        ensures
            match r {
                Ok(p) => exists|i: int|
                    db@.is_first_match(string_views(names@), i) && p@ == db@.projects[i],
                Err(e) => e == StoreError::NotFound && !db@.any_match(string_views(names@)),
            },
    {
        if names.len() == 0 {
            return Err(StoreError::NotFound);
        }
        let ghost ns = string_views(names@);
        let mut i: usize = 0;
        while i < db.projects.len()
            invariant
                i <= db.projects.len(),
                ns == string_views(names@),
                names@.len() > 0,
                forall|j: int| 0 <= j < i ==> !db@.matches(#[trigger] db@.projects[j], ns),
            decreases db.projects.len() - i,
        {
            if db.matches(&db.projects[i], names) {
                let p = db.projects[i].copy();
                assert(db@.is_first_match(ns, i as int));
                return Ok(p);
            }
            i = i + 1;
        }
        Err(StoreError::NotFound)
    }

    /// Adds a project with the next identifier and returns that identifier.
    /// The manifest text is stored verbatim.
    pub fn add(db: &mut DB, name: String, toml: String) -> (r: Result<i32, StoreError>)
        requires
            old(db)@.wf(),
        ensures
            final(db)@.wf(),
            old(db)@.next_id < i32::MAX ==> r == Ok::<i32, StoreError>(old(db)@.next_id as i32)
                && final(db)@ == old(db)@.add_project(name@, toml@),
            old(db)@.next_id == i32::MAX ==> r == Err::<i32, StoreError>(StoreError::Full)
                && final(db)@ == old(db)@,
    {
        if db.next_id == i32::MAX {
            return Err(StoreError::Full);
        }
        proof {
            db@.lemma_add_project_wf(name@, toml@);
        }
        let id = db.next_id;
        let ghost before = db@;
        db.projects.push(Project { id, name, toml });
        db.next_id = id + 1;
        assert(db@.projects =~= before.add_project(name@, toml@).projects);
        Ok(id)
    }

    /// Removes project `id` together with all of its aliases.
    pub fn remove(db: &mut DB, id: i32) -> (r: Result<(), StoreError>)
        requires
            old(db)@.wf(),
        ensures
            final(db)@.wf(),
            !old(db)@.has_project(id as int) ==> r == Err::<(), StoreError>(StoreError::NotFound)
                && final(db)@ == old(db)@,
            old(db)@.has_project(id as int) ==> r == Ok::<(), StoreError>(()) && final(db)@
                == old(db)@.remove_project(id as int),
    {
        if !db.has_project(id) {
            return Err(StoreError::NotFound);
        }
        proof {
            db@.lemma_remove_project_wf(id as int);
        }
        db.drop_alias_rows(id);
        db.drop_project_row(id);
        Ok(())
    }

    /// Replaces the manifest text of project `id`, verbatim.
    pub fn replace_toml(db: &mut DB, id: i32, toml: String) -> (r: Result<(), StoreError>)
        requires
            old(db)@.wf(),
        ensures
            final(db)@.wf(),
            !old(db)@.has_project(id as int) ==> r == Err::<(), StoreError>(StoreError::NotFound)
                && final(db)@ == old(db)@,
            old(db)@.has_project(id as int) ==> r == Ok::<(), StoreError>(()) && final(db)@
                == old(db)@.replace_toml(id as int, toml@),
    {
        let k = match db.project_index(id) {
            Some(k) => k,
            None => return Err(StoreError::NotFound),
        };
        let ghost before = db@;
        let ghost t = toml@;
        let p = Project { id, name: db.projects[k].name.clone(), toml };
        db.projects.set(k, p);
        proof {
            assert forall|j: int| 0 <= j < before.projects.len() && j != k implies before.projects[j].id != id by {
                if j < k {
                    assert(before.projects[j].id < before.projects[k as int].id);
                } else {
                    assert(before.projects[k as int].id < before.projects[j].id);
                }
            }
            assert(db@.projects =~= before.replace_toml(id as int, t).projects);
            before.lemma_same_rows_wf(db@);
        }
        Ok(())
    }

    /// The identifier that `name` resolves to: the owner of alias `name` when
    /// there is one, else the first project with that display name.
    pub fn get_id(db: &DB, name: &String) -> (r: Result<i32, StoreError>)
        requires
            db@.wf(),
        ensures
            match r {
                Ok(id) => db@.resolves_to(name@, id as int),
                Err(e) => e == StoreError::NotFound && !db@.names_something(name@),
            },
    {
        match db.find_alias(name) {
            Some(k) => {
                let id = db.aliases[k].id;
                assert(db@.is_alias_of(name@, id as int));
                return Ok(id);
            },
            None => {},
        }
        let mut i: usize = 0;
        while i < db.projects.len()
            invariant
                i <= db.projects.len(),
                !db@.has_alias(name@),
                forall|j: int| 0 <= j < i ==> #[trigger] db@.projects[j].name != name@,
            decreases db.projects.len() - i,
        {
            if db.projects[i].name == *name {
                assert(db@.projects[i as int].name == name@);
                return Ok(db.projects[i].id);
            }
            i = i + 1;
        }
        Err(StoreError::NotFound)
    }

    /// Every project, in store order.
    pub fn get_all(db: &DB) -> (r: Vec<Project>)
        ensures
            project_views(r@) == db@.projects,
    {
        let mut r: Vec<Project> = Vec::new();
        let mut i: usize = 0;
        while i < db.projects.len()
            invariant
                i <= db.projects.len(),
                project_views(r@) == db@.projects.subrange(0, i as int),
            decreases db.projects.len() - i,
        {
            let ghost prev = r@;
            r.push(db.projects[i].copy());
            assert(project_views(r@) =~= project_views(prev).push(db@.projects[i as int]));
            assert(db@.projects.subrange(0, i + 1) =~= db@.projects.subrange(0, i as int).push(db@.projects[i as int]));
            i = i + 1;
        }
        assert(db@.projects.subrange(0, i as int) =~= db@.projects);
        r
    }
}

impl Alias {
    /// Whether `alias` is taken by any project.
    pub fn check(db: &DB, alias: &String) -> (r: bool)
        ensures
            r == db@.has_alias(alias@),
    {
        db.find_alias(alias).is_some()
    }

    /// Adds a batch of aliases to project `id`, all or none. The first alias
    /// becomes primary when the project has none yet.
    pub fn add_all(db: &mut DB, id: i32, aliases: Vec<String>) -> (r: Result<(), StoreError>)
        requires
            old(db)@.wf(),
        ensures
            final(db)@.wf(),
            !old(db)@.has_project(id as int) ==> r == Err::<(), StoreError>(StoreError::NotFound)
                && final(db)@ == old(db)@,
            old(db)@.has_project(id as int) && old(db)@.batch_conflicts(string_views(aliases@))
                ==> r == Err::<(), StoreError>(StoreError::Conflict) && final(db)@ == old(db)@,
            old(db)@.has_project(id as int) && !old(db)@.batch_conflicts(string_views(aliases@))
                ==> r == Ok::<(), StoreError>(()) && final(db)@ == old(db)@.add_aliases(
                id as int,
                string_views(aliases@),
            ),
    {
        if !db.has_project(id) {
            return Err(StoreError::NotFound);
        }
        if db.batch_conflicts(&aliases) {
            return Err(StoreError::Conflict);
        }
        let ghost before = db@;
        let ghost bs = string_views(aliases@);
        proof {
            before.lemma_add_aliases_wf(id as int, bs);
        }
        let fresh = !db.has_aliases(id);
        let mut k: usize = 0;
        while k < aliases.len()
            invariant
                k <= aliases.len(),
                bs == string_views(aliases@),
                fresh == !before.has_aliases(id as int),
                db@ == (StoreModel {
                    aliases: before.aliases + before.new_alias_rows(id as int, bs).subrange(0, k as int),
                    ..before
                }),
            decreases aliases.len() - k,
        {
            let a = aliases[k].clone();
            let ghost prev = db@;
            let ghost rows = before.new_alias_rows(id as int, bs);
            db.aliases.push(Alias { id, alias: a, primary: fresh && k == 0 });
            proof {
                assert(db@.aliases =~= prev.aliases.push(rows[k as int]));
                assert(rows.subrange(0, k + 1) =~= rows.subrange(0, k as int).push(rows[k as int]));
            }
            k = k + 1;
        }
        assert(before.new_alias_rows(id as int, bs).subrange(0, k as int) =~= before.new_alias_rows(id as int, bs));
        Ok(())
    }

    /// Adds one alias to project `id`; it becomes primary when the project has
    /// no alias yet.
    pub fn add(db: &mut DB, id: i32, alias: String) -> (r: Result<(), StoreError>)
        requires
            old(db)@.wf(),
        ensures
            final(db)@.wf(),
            !old(db)@.has_project(id as int) ==> r == Err::<(), StoreError>(StoreError::NotFound)
                && final(db)@ == old(db)@,
            old(db)@.has_project(id as int) && old(db)@.has_alias(alias@) ==> r == Err::<
                (),
                StoreError,
            >(StoreError::Conflict) && final(db)@ == old(db)@,
            old(db)@.has_project(id as int) && !old(db)@.has_alias(alias@) ==> r == Ok::<
                (),
                StoreError,
            >(()) && final(db)@ == old(db)@.add_aliases(id as int, seq![alias@]),
    {
        let ghost a = alias@;
        let batch = vec![alias];
        assert(string_views(batch@) =~= seq![a]);
        proof {
            let bs = seq![a];
            if db@.has_alias(a) {
                assert(db@.has_alias(bs[0]));
            }
        }
        Alias::add_all(db, id, batch)
    }

    /// Adds the first alias of a project that has none; it becomes primary.
    pub fn add_primary(db: &mut DB, id: i32, alias: String) -> (r: Result<(), StoreError>)
        requires
            old(db)@.wf(),
            !old(db)@.has_aliases(id as int),
        ensures
            final(db)@.wf(),
            !old(db)@.has_project(id as int) ==> r == Err::<(), StoreError>(StoreError::NotFound)
                && final(db)@ == old(db)@,
            old(db)@.has_project(id as int) && old(db)@.has_alias(alias@) ==> r == Err::<
                (),
                StoreError,
            >(StoreError::Conflict) && final(db)@ == old(db)@,
            old(db)@.has_project(id as int) && !old(db)@.has_alias(alias@) ==> r == Ok::<
                (),
                StoreError,
            >(()) && final(db)@.aliases == old(db)@.aliases.push(
                crate::records::AliasView { id: id as int, alias: alias@, primary: true },
            ) && final(db)@ == old(db)@.add_aliases(id as int, seq![alias@]),
    {
        let ghost a = alias@;
        let ghost before = db@;
        let r = Alias::add(db, id, alias);
        assert(before.new_alias_rows(id as int, seq![a]) =~= seq![
            crate::records::AliasView { id: id as int, alias: a, primary: true },
        ]);
        r
    }

    /// Adds a further, non-primary alias to a project that already has one.
    pub fn add_secondary(db: &mut DB, id: i32, alias: String) -> (r: Result<(), StoreError>)
        requires
            old(db)@.wf(),
            old(db)@.has_aliases(id as int),
        ensures
            final(db)@.wf(),
            old(db)@.has_alias(alias@) ==> r == Err::<(), StoreError>(StoreError::Conflict)
                && final(db)@ == old(db)@,
            !old(db)@.has_alias(alias@) ==> r == Ok::<(), StoreError>(())
                && final(db)@.aliases == old(db)@.aliases.push(
                crate::records::AliasView { id: id as int, alias: alias@, primary: false },
            ) && final(db)@ == old(db)@.add_aliases(id as int, seq![alias@]),
    {
        let ghost a = alias@;
        let ghost before = db@;
        proof {
            let k = choose|k: int| 0 <= k < before.aliases.len() && before.aliases[k].id == id as int;
            assert(before.has_project(before.aliases[k].id));
        }
        let r = Alias::add(db, id, alias);
        assert(before.new_alias_rows(id as int, seq![a]) =~= seq![
            crate::records::AliasView { id: id as int, alias: a, primary: false },
        ]);
        r
    }

    /// Removes an alias. The primary alias of a project that has other aliases
    /// stays.
    pub fn remove(db: &mut DB, alias: &String) -> (r: Result<(), StoreError>)
        requires
            old(db)@.wf(),
        ensures
            final(db)@.wf(),
            !old(db)@.has_alias(alias@) ==> r == Err::<(), StoreError>(StoreError::NotFound)
                && final(db)@ == old(db)@,
            old(db)@.is_guarded(alias@) ==> r == Err::<(), StoreError>(
                StoreError::PrimaryGuardViolation,
            ) && final(db)@ == old(db)@,
            old(db)@.has_alias(alias@) && !old(db)@.is_guarded(alias@) ==> r == Ok::<
                (),
                StoreError,
            >(()) && final(db)@ == old(db)@.remove_alias(alias@),
    {
        let k = match db.find_alias(alias) {
            Some(k) => k,
            None => {
                proof {
                    if db@.is_guarded(alias@) {
                        let (i, j) = choose|i: int, j: int|
                            0 <= i < db@.aliases.len() && 0 <= j < db@.aliases.len() && i != j
                                && #[trigger] db@.aliases[i].alias == alias@ && db@.aliases[i].primary
                                && #[trigger] db@.aliases[j].id == db@.aliases[i].id;
                        assert(db@.has_alias(alias@));
                    }
                }
                return Err(StoreError::NotFound);
            },
        };
        if db.aliases[k].primary && db.has_other_alias(k) {
            assert(db@.is_guarded(alias@));
            return Err(StoreError::PrimaryGuardViolation);
        }
        proof {
            if db@.is_guarded(alias@) {
                let (i, j) = choose|i: int, j: int|
                    0 <= i < db@.aliases.len() && 0 <= j < db@.aliases.len() && i != j
                        && #[trigger] db@.aliases[i].alias == alias@ && db@.aliases[i].primary
                        && #[trigger] db@.aliases[j].id == db@.aliases[i].id;
                if i != k {
                    if i < k {
                        assert(db@.aliases[i].alias != db@.aliases[k as int].alias);
                    } else {
                        assert(db@.aliases[k as int].alias != db@.aliases[i].alias);
                    }
                }
                assert(false);
            }
            db@.lemma_remove_alias_wf(alias@);
        }
        db.drop_alias_text(alias);
        Ok(())
    }

    /// Every alias row, in store order.
    pub fn get_all(db: &DB) -> (r: Vec<Alias>)
        ensures
            alias_views(r@) == db@.aliases,
    {
        let mut r: Vec<Alias> = Vec::new();
        let mut i: usize = 0;
        while i < db.aliases.len()
            invariant
                i <= db.aliases.len(),
                alias_views(r@) == db@.aliases.subrange(0, i as int),
            decreases db.aliases.len() - i,
        {
            let ghost prev = r@;
            r.push(db.aliases[i].copy());
            assert(alias_views(r@) =~= alias_views(prev).push(db@.aliases[i as int]));
            assert(db@.aliases.subrange(0, i + 1) =~= db@.aliases.subrange(0, i as int).push(db@.aliases[i as int]));
            i = i + 1;
        }
        assert(db@.aliases.subrange(0, i as int) =~= db@.aliases);
        r
    }

    /// The aliases of project `id`, in store order, joined by ", ".
    pub fn get(db: &DB, id: i32) -> (r: String)
        ensures
            r@ == join(db@.aliases_of(id as int), seq![',', ' ']),
    {
        let ghost pred = |x: AliasView| x.id == id as int;
        let ghost text = |x: AliasView| x.alias;
        let ghost all = db@.aliases;
        let ghost sep = seq![',', ' '];
        let mut r = String::new();
        let mut n: usize = 0;
        let mut i: usize = 0;
        while i < db.aliases.len()
            invariant
                i <= db.aliases.len(),
                all == db@.aliases,
                pred == (|x: AliasView| x.id == id as int),
                text == (|x: AliasView| x.alias),
                sep == seq![',', ' '],
                n == all.subrange(0, i as int).filter(pred).len(),
                r@ == join(all.subrange(0, i as int).filter(pred).map_values(text), sep),
            decreases db.aliases.len() - i,
        {
            proof {
                lemma_filter_step(all, pred, i as int);
            }
            if db.aliases[i].id == id {
                let ghost prev = all.subrange(0, i as int).filter(pred).map_values(text);
                let ghost next = all.subrange(0, i + 1).filter(pred).map_values(text);
                assert(next =~= prev.push(all[i as int].alias));
                assert(next.drop_last() =~= prev);
                if n > 0 {
                    proof {
                        reveal_strlit(", ");
                    }
                    r.append(", ");
                }
                r.append(db.aliases[i].alias.as_str());
                proof {
                    all.subrange(0, i as int).lemma_filter_len(pred);
                }
                n = n + 1;
            }
            i = i + 1;
        }
        assert(all.subrange(0, i as int) =~= all);
        r
    }
}

impl Settings {
    /// The current settings record.
    pub fn get_all(db: &DB) -> (r: Settings)
        ensures
            r.uwsm == db@.uwsm,
    {
        db.settings
    }

    /// Sets the session-wrapper flag to `value`, or flips it when `value` is
    /// `None`.
    pub fn set_uwsm(db: &mut DB, value: Option<bool>)
        requires
            old(db)@.wf(),
        ensures
            final(db)@.wf(),
            final(db)@ == old(db)@.set_uwsm(value),
    {
        let v = match value {
            Some(v) => v,
            None => !db.settings.uwsm,
        };
        let ghost before = db@;
        db.settings = Settings { uwsm: v };
        proof {
            before.lemma_same_rows_wf(db@);
        }
    }

    /// Sets a flag by its name: `uwsm` or `use_session_wrapper`. Any other
    /// name is refused.
    pub fn set_flag(db: &mut DB, name: &String, value: Option<bool>) -> (r: Result<(), StoreError>)
        requires
            old(db)@.wf(),
        ensures
            final(db)@.wf(),
            is_flag_name(name@) ==> r == Ok::<(), StoreError>(()) && final(db)@ == old(db)@.set_uwsm(value),
            !is_flag_name(name@) ==> r == Err::<(), StoreError>(StoreError::UnknownOption) && final(db)@ == old(db)@,
    {
        let short = String::from_str("uwsm");
        let long = String::from_str("use_session_wrapper");
        if *name == short || *name == long {
            Settings::set_uwsm(db, value);
            Ok(())
        } else {
            Err(StoreError::UnknownOption)
        }
    }
}

/// The names under which the session-wrapper flag is set.
pub open spec fn is_flag_name(name: Seq<char>) -> bool {
    name == "uwsm"@ || name == "use_session_wrapper"@
}

} // verus!
