use devinit::db::DB;
use devinit::errors::StoreError;
use devinit::records::{Alias, Project, Settings};

fn s(x: &str) -> String {
    x.to_string()
}

fn store_with_web() -> (DB, i32) {
    let mut db = DB::new();
    let id = Project::add(&mut db, s("web"), s("M1")).unwrap();
    Alias::add_all(&mut db, id, vec![s("w"), s("ww")]).unwrap();
    (db, id)
}

#[test]
fn add_assigns_increasing_ids() {
    let mut db = DB::new();
    assert_eq!(Project::add(&mut db, s("a"), s("")), Ok(1));
    assert_eq!(Project::add(&mut db, s("b"), s("")), Ok(2));
    assert_eq!(db.next_id(), 3);
}

#[test]
fn add_then_get_returns_manifest_verbatim() {
    let mut db = DB::new();
    let text = "[programs]\n  [[programs.list]]\n  name = \"x\"\n";
    let id = Project::add(&mut db, s("api"), s(text)).unwrap();
    let p = Project::get(&db, &[s("api")]).unwrap();
    assert_eq!(p.id, id);
    assert_eq!(p.name, "api");
    assert_eq!(p.toml, text);
}

#[test]
fn resolve_by_alias_and_display_name() {
    let (db, id) = store_with_web();
    assert_eq!(Project::get_id(&db, &s("w")), Ok(id));
    assert_eq!(Project::get_id(&db, &s("ww")), Ok(id));
    assert_eq!(Project::get_id(&db, &s("web")), Ok(id));
    assert_eq!(Project::get_id(&db, &s("nope")), Err(StoreError::NotFound));
}

#[test]
fn resolve_prefers_alias_over_display_name() {
    let mut db = DB::new();
    let a = Project::add(&mut db, s("shared"), s("A")).unwrap();
    let b = Project::add(&mut db, s("other"), s("B")).unwrap();
    Alias::add(&mut db, b, s("shared")).unwrap();
    assert_eq!(Project::get_id(&db, &s("shared")), Ok(b));
    assert_ne!(a, b);
}

#[test]
fn resolve_does_not_match_substrings() {
    let (db, _) = store_with_web();
    assert_eq!(Project::get_id(&db, &s("we")), Err(StoreError::NotFound));
    assert!(Project::get(&db, &[s("we")]).is_err());
}

#[test]
fn get_requires_every_candidate_to_name_the_project() {
    let (mut db, id) = store_with_web();
    let other = Project::add(&mut db, s("docs"), s("M2")).unwrap();
    assert_eq!(Project::get(&db, &[s("w"), s("web")]).unwrap().id, id);
    assert!(Project::get(&db, &[s("w"), s("docs")]).is_err());
    assert_eq!(Project::get(&db, &[s("docs")]).unwrap().id, other);
}

#[test]
fn get_with_no_candidates_is_not_found() {
    let (db, _) = store_with_web();
    assert_eq!(Project::get(&db, &[]).err(), Some(StoreError::NotFound));
}

#[test]
fn first_alias_of_batch_is_primary() {
    let (db, id) = store_with_web();
    let all = Alias::get_all(&db);
    assert_eq!(all.len(), 2);
    assert_eq!(all[0].alias, "w");
    assert!(all[0].primary);
    assert_eq!(all[0].id, id);
    assert_eq!(all[1].alias, "ww");
    assert!(!all[1].primary);
}

#[test]
fn later_batch_adds_no_primary() {
    let (mut db, id) = store_with_web();
    Alias::add_all(&mut db, id, vec![s("x"), s("y")]).unwrap();
    let primaries: Vec<Alias> = Alias::get_all(&db).into_iter().filter(|a| a.primary).collect();
    assert_eq!(primaries.len(), 1);
    assert_eq!(primaries[0].alias, "w");
}

#[test]
fn alias_is_taken_only_once() {
    let (mut db, id) = store_with_web();
    let other = Project::add(&mut db, s("docs"), s("")).unwrap();
    assert_eq!(Alias::add(&mut db, other, s("w")), Err(StoreError::Conflict));
    assert_eq!(Alias::add_all(&mut db, other, vec![s("d"), s("ww")]), Err(StoreError::Conflict));
    assert_eq!(Alias::add_all(&mut db, id, vec![s("w")]), Err(StoreError::Conflict));
    assert_eq!(Alias::add_secondary(&mut db, id, s("ww")), Err(StoreError::Conflict));
    // nothing of the refused batches stays behind
    assert!(!Alias::check(&db, &s("d")));
    assert_eq!(Alias::get_all(&db).len(), 2);
}

#[test]
fn batch_with_repeated_alias_is_refused_whole() {
    let mut db = DB::new();
    let id = Project::add(&mut db, s("p"), s("")).unwrap();
    assert_eq!(Alias::add_all(&mut db, id, vec![s("a"), s("b"), s("a")]), Err(StoreError::Conflict));
    assert!(Alias::get_all(&db).is_empty());
}

#[test]
fn aliases_need_an_existing_project() {
    let mut db = DB::new();
    assert_eq!(Alias::add_all(&mut db, 7, vec![s("a")]), Err(StoreError::NotFound));
    assert_eq!(Alias::add(&mut db, 7, s("a")), Err(StoreError::NotFound));
}

#[test]
fn add_primary_and_secondary() {
    let mut db = DB::new();
    let id = Project::add(&mut db, s("p"), s("")).unwrap();
    Alias::add_primary(&mut db, id, s("one")).unwrap();
    Alias::add_secondary(&mut db, id, s("two")).unwrap();
    let all = Alias::get_all(&db);
    assert!(all[0].primary);
    assert!(!all[1].primary);
}

#[test]
fn primary_alias_with_siblings_is_guarded() {
    let (mut db, _) = store_with_web();
    assert_eq!(Alias::remove(&mut db, &s("w")), Err(StoreError::PrimaryGuardViolation));
    assert_eq!(Alias::get_all(&db).len(), 2);
    assert_eq!(Alias::remove(&mut db, &s("ww")), Ok(()));
    assert_eq!(Alias::remove(&mut db, &s("w")), Ok(()));
    assert!(Alias::get_all(&db).is_empty());
}

#[test]
fn removing_unknown_alias_is_not_found() {
    let (mut db, _) = store_with_web();
    assert_eq!(Alias::remove(&mut db, &s("zz")), Err(StoreError::NotFound));
}

#[test]
fn removing_project_drops_its_aliases() {
    let (mut db, id) = store_with_web();
    let other = Project::add(&mut db, s("docs"), s("")).unwrap();
    Alias::add(&mut db, other, s("d")).unwrap();
    assert_eq!(Project::remove(&mut db, id), Ok(()));
    assert_eq!(Project::get_id(&db, &s("w")), Err(StoreError::NotFound));
    assert_eq!(Project::get_id(&db, &s("ww")), Err(StoreError::NotFound));
    assert_eq!(Project::get_id(&db, &s("web")), Err(StoreError::NotFound));
    assert_eq!(Project::get_id(&db, &s("d")), Ok(other));
    assert_eq!(Alias::get_all(&db).len(), 1);
    assert_eq!(Project::get_all(&db).len(), 1);
    assert_eq!(Project::remove(&mut db, id), Err(StoreError::NotFound));
}

#[test]
fn replace_toml_overwrites_text() {
    let (mut db, id) = store_with_web();
    assert_eq!(Project::replace_toml(&mut db, id, s("M2")), Ok(()));
    assert_eq!(Project::get(&db, &[s("web")]).unwrap().toml, "M2");
    assert_eq!(Project::replace_toml(&mut db, 99, s("M3")), Err(StoreError::NotFound));
}

#[test]
fn aliases_of_project_are_joined() {
    let (mut db, id) = store_with_web();
    let other = Project::add(&mut db, s("docs"), s("")).unwrap();
    assert_eq!(Alias::get(&db, id), "w, ww");
    assert_eq!(Alias::get(&db, other), "");
    Alias::add(&mut db, other, s("d")).unwrap();
    assert_eq!(Alias::get(&db, other), "d");
}

#[test]
fn check_reports_taken_aliases() {
    let (db, _) = store_with_web();
    assert!(Alias::check(&db, &s("ww")));
    assert!(!Alias::check(&db, &s("web")));
}

#[test]
fn settings_toggle_twice_restores() {
    let mut db = DB::new();
    assert!(!Settings::get_all(&db).uwsm);
    Settings::set_uwsm(&mut db, None);
    assert!(Settings::get_all(&db).uwsm);
    Settings::set_uwsm(&mut db, None);
    assert!(!Settings::get_all(&db).uwsm);
}

#[test]
fn settings_explicit_value() {
    let mut db = DB::new();
    Settings::set_uwsm(&mut db, Some(true));
    Settings::set_uwsm(&mut db, Some(true));
    assert!(Settings::get_all(&db).uwsm);
    assert_eq!(Settings::set_flag(&mut db, &s("use_session_wrapper"), Some(false)), Ok(()));
    assert!(!Settings::get_all(&db).uwsm);
}

#[test]
fn unknown_settings_flag_is_refused() {
    let mut db = DB::new();
    assert_eq!(Settings::set_flag(&mut db, &s("colour"), None), Err(StoreError::UnknownOption));
    assert!(!Settings::get_all(&db).uwsm);
}

#[test]
fn ids_run_out_at_the_largest_i32() {
    let mut db = DB::from_rows(vec![], vec![], Settings { uwsm: false }, i32::MAX).ok().unwrap();
    assert_eq!(Project::add(&mut db, s("p"), s("")), Err(StoreError::Full));
}

#[test]
fn from_rows_accepts_consistent_rows() {
    let projects = vec![
        Project { id: 1, name: s("a"), toml: s("") },
        Project { id: 4, name: s("b"), toml: s("") },
    ];
    let aliases = vec![
        Alias { id: 4, alias: s("bb"), primary: true },
        Alias { id: 1, alias: s("aa"), primary: true },
        Alias { id: 4, alias: s("b2"), primary: false },
    ];
    let db = DB::from_rows(projects, aliases, Settings { uwsm: true }, 5).ok().unwrap();
    assert_eq!(Project::get_id(&db, &s("b2")), Ok(4));
    assert!(Settings::get_all(&db).uwsm);
}

#[test]
fn from_rows_refuses_inconsistent_rows() {
    let p = || vec![Project { id: 1, name: s("a"), toml: s("") }];
    // duplicate alias text
    let dup = vec![
        Alias { id: 1, alias: s("x"), primary: true },
        Alias { id: 1, alias: s("x"), primary: false },
    ];
    assert_eq!(DB::from_rows(p(), dup, Settings { uwsm: false }, 2).err(), Some(StoreError::SchemaError));
    // two primaries
    let two = vec![
        Alias { id: 1, alias: s("x"), primary: true },
        Alias { id: 1, alias: s("y"), primary: true },
    ];
    assert_eq!(DB::from_rows(p(), two, Settings { uwsm: false }, 2).err(), Some(StoreError::SchemaError));
    // no primary
    let none = vec![Alias { id: 1, alias: s("x"), primary: false }];
    assert_eq!(DB::from_rows(p(), none, Settings { uwsm: false }, 2).err(), Some(StoreError::SchemaError));
    // dangling alias
    let dangling = vec![Alias { id: 2, alias: s("x"), primary: true }];
    assert_eq!(DB::from_rows(p(), dangling, Settings { uwsm: false }, 3).err(), Some(StoreError::SchemaError));
    // identifier not below the next one
    assert_eq!(DB::from_rows(p(), vec![], Settings { uwsm: false }, 1).err(), Some(StoreError::SchemaError));
}

#[test]
fn migrations_from_each_version() {
    assert_eq!(DB::pending_migrations(0), vec![1, 2]);
    assert_eq!(DB::pending_migrations(1), vec![2]);
    assert!(DB::pending_migrations(2).is_empty());
    assert!(DB::pending_migrations(9).is_empty());
}
