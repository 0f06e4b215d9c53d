use std::path::PathBuf;
use std::time::{Duration, Instant};

use rusqlite::Connection;
use workspace_db::db::workspace_from_insert;
use workspace_db::lookup::{get_workspace_id, lookup_text, root_list_text};
use workspace_db::path::{to_paths, to_texts};
use workspace_db::recent::list_recent;
use workspace_db::sql::{
    LOOKUP_HEAD, LOOKUP_OUTSIDE, LOOKUP_OVERLAP, LOOKUP_TAIL, WORKSPACE_M_1,
};
use workspace_db::store::{insert_workspace, redundant, replace_roots};
use workspace_db::{Db, DbError, SerializedWorkspace, WorkspaceId};

fn paths(texts: &[&str]) -> Vec<PathBuf> {
    texts.iter().map(PathBuf::from).collect()
}

fn strings(texts: &[&str]) -> Vec<String> {
    texts.iter().map(|text| text.to_string()).collect()
}

fn wait_a_second() {
    let start = Instant::now();
    while start.elapsed() < Duration::from_millis(1100) {}
}

/// A database in which workspace `k + 1` has the roots `roots[k]`.
fn filled(roots: &[&[&str]]) -> Db {
    let mut db = Db::open_in_memory();
    for list in roots {
        let id = db.make_new_workspace().workspace_id;
        db.update_worktree_roots(&id, &paths(list)).unwrap();
    }
    db
}

/// What the database lists, with the roots sorted.
fn listed(db: &mut Db, limit: usize) -> Vec<(i64, Vec<PathBuf>)> {
    let mut list: Vec<(i64, Vec<PathBuf>)> = db
        .recent_workspaces(limit)
        .unwrap()
        .into_iter()
        .map(|(id, mut roots)| {
            roots.sort();
            (id.0, roots)
        })
        .collect();
    list.sort();
    list
}

/// A connection with empty tables.
fn connection() -> Connection {
    let connection = Connection::open_in_memory().unwrap();
    connection.execute_batch(WORKSPACE_M_1).unwrap();
    connection
}

#[test]
fn lists_of_placeholders() {
    assert_eq!(root_list_text(0), "()");
    assert_eq!(root_list_text(1), "(?1)");
    assert_eq!(root_list_text(3), "(?1, ?2, ?3)");
    assert_eq!(
        root_list_text(12),
        "(?1, ?2, ?3, ?4, ?5, ?6, ?7, ?8, ?9, ?10, ?11, ?12)"
    );
    assert!(root_list_text(1000).ends_with(", ?999, ?1000)"));
}

#[test]
fn lookup_has_three_lists() {
    let expected = format!(
        "{}(?1, ?2){}(?1, ?2){}(?1, ?2){}",
        LOOKUP_HEAD, LOOKUP_OUTSIDE, LOOKUP_OVERLAP, LOOKUP_TAIL
    );
    assert_eq!(lookup_text(2), expected);
}

#[test]
fn lookup_takes_any_number_of_roots() {
    let mut connection = connection();
    let id = insert_workspace(&mut connection).unwrap();
    let roots: Vec<String> = (0..300).map(|k| format!("/root{}", k)).collect();
    replace_roots(&mut connection, id.0, &roots).unwrap();
    assert_eq!(get_workspace_id(&roots, &mut connection).unwrap(), Some(id));
    assert_eq!(get_workspace_id(&roots[1..], &mut connection).unwrap(), None);
}

#[test]
fn too_many_roots_are_refused() {
    // SQLite takes up to 32766 parameters, and one of them is the number of roots.
    let mut connection = connection();
    let roots: Vec<String> = (0..32766).map(|k| k.to_string()).collect();
    assert!(matches!(get_workspace_id(&roots, &mut connection), Err(DbError::Sqlite(_))));
    assert_eq!(get_workspace_id(&roots[1..], &mut connection).unwrap(), None);
}

#[test]
fn tables_that_are_missing_fail_the_lookup() {
    let mut connection = Connection::open_in_memory().unwrap();
    let found = get_workspace_id(&strings(&["/tmp"]), &mut connection);
    assert!(matches!(found, Err(DbError::Sqlite(_))));
}

#[test]
fn lookup_is_exact() {
    let mut db = filled(&[&["/a", "/b"], &["/a"], &["/b", "/c"]]);
    assert_eq!(db.workspace_id(&paths(&["/a", "/b"])).unwrap(), Some(WorkspaceId(1)));
    assert_eq!(db.workspace_id(&paths(&["/a"])).unwrap(), Some(WorkspaceId(2)));
    assert_eq!(db.workspace_id(&paths(&["/b", "/c"])).unwrap(), Some(WorkspaceId(3)));
    assert_eq!(db.workspace_id(&paths(&["/b"])).unwrap(), None);
    assert_eq!(db.workspace_id(&paths(&["/a", "/b", "/c"])).unwrap(), None);
    assert_eq!(db.workspace_id(&paths(&["/a", "/c"])).unwrap(), None);
}

#[test]
fn lookup_ignores_order() {
    let mut db = filled(&[&["/a", "/b", "/c"]]);
    assert_eq!(db.workspace_id(&paths(&["/c", "/a", "/b"])).unwrap(), Some(WorkspaceId(1)));
    assert_eq!(db.workspace_id(&paths(&["/b", "/c", "/a"])).unwrap(), Some(WorkspaceId(1)));
}

#[test]
fn unusable_lists_match_nothing() {
    let mut db = filled(&[&["/a"], &["/a", "/b"]]);
    db.make_new_workspace();
    assert_eq!(db.workspace_id(&[]).unwrap(), None);
    assert_eq!(db.workspace_id(&paths(&["/a", "/a"])).unwrap(), None);
    assert_eq!(db.workspace_id(&paths(&["/a", "/b", "/a"])).unwrap(), None);
}

#[test]
fn update_is_found_and_forgets_former_roots() {
    let mut db = filled(&[&["/a", "/b"]]);
    db.update_worktree_roots(&WorkspaceId(1), &paths(&["/b", "/c"])).unwrap();
    assert_eq!(db.workspace_id(&paths(&["/b", "/c"])).unwrap(), Some(WorkspaceId(1)));
    assert_eq!(db.workspace_id(&paths(&["/a", "/b"])).unwrap(), None);
}

#[test]
fn update_collects_the_former_owner_and_keeps_the_others() {
    let mut db = filled(&[&["/a"], &["/b"], &["/c"]]);
    db.update_worktree_roots(&WorkspaceId(2), &paths(&["/a"])).unwrap();
    assert_eq!(
        listed(&mut db, 10),
        vec![(2, paths(&["/a"])), (3, paths(&["/c"]))]
    );
    assert_eq!(db.workspace_id(&paths(&["/b"])).unwrap(), None);
}

#[test]
fn update_is_idempotent() {
    let mut db = filled(&[&["/a"], &["/b", "/c"]]);
    let before = listed(&mut db, 10);
    db.update_worktree_roots(&WorkspaceId(2), &paths(&["/c", "/b"])).unwrap();
    assert_eq!(listed(&mut db, 10), before);
}

#[test]
fn own_roots_can_be_saved_again() {
    let mut db = filled(&[&["/tmp"]]);
    db.update_worktree_roots(&WorkspaceId(1), &paths(&["/tmp"])).unwrap();
    assert_eq!(db.workspace_id(&paths(&["/tmp"])).unwrap(), Some(WorkspaceId(1)));
    db.update_worktree_roots(&WorkspaceId(1), &paths(&["/b", "/a", "/c"])).unwrap();
    let before = listed(&mut db, 10);
    db.update_worktree_roots(&WorkspaceId(1), &paths(&["/c", "/b", "/a"])).unwrap();
    assert_eq!(listed(&mut db, 10), before);
}

#[test]
fn only_another_workspace_is_redundant() {
    assert_eq!(redundant(Some(WorkspaceId(3)), 2), Some(3));
    assert_eq!(redundant(Some(WorkspaceId(2)), 2), None);
    assert_eq!(redundant(None, 2), None);
}

#[test]
fn default_workspace_takes_no_roots() {
    let mut db = filled(&[&["/a"]]);
    let id = WorkspaceId::default();
    let r = db.update_worktree_roots(&id, &paths(&["/b"]));
    assert!(matches!(r, Err(DbError::Sqlite(_))));
    db.update_worktree_roots(&id, &[]).unwrap();
    assert_eq!(listed(&mut db, 10), vec![(1, paths(&["/a"]))]);
}

#[test]
fn ids_increase_over_a_history() {
    let mut db = Db::open_in_memory();
    let mut last = 0;
    for _ in 0..5 {
        let made = db.workspace_for_worktree_roots(&paths(&["/new"])).workspace_id;
        assert!(made.0 > last);
        // The workspace that had this root before goes.
        db.update_worktree_roots(&made, &paths(&["/old"])).unwrap();
        assert!(db.update_worktree_roots(&made, &paths(&["/a", "/a"])).is_err());
        assert_eq!(db.workspace_id(&paths(&["/old"])).unwrap(), Some(made));
        assert_eq!(db.recent_workspaces(10).unwrap().len(), 1);
        last = made.0;
    }
}

#[test]
fn update_with_no_roots_clears_them() {
    let mut db = filled(&[&["/a"], &["/b"]]);
    db.update_worktree_roots(&WorkspaceId(1), &[]).unwrap();
    assert_eq!(
        listed(&mut db, 10),
        vec![(1, vec![]), (2, paths(&["/b"]))]
    );
    // A second workspace without roots does not displace the first.
    db.update_worktree_roots(&WorkspaceId(2), &[]).unwrap();
    assert_eq!(listed(&mut db, 10), vec![(1, vec![]), (2, vec![])]);
}

#[test]
fn repeated_root_changes_nothing() {
    let mut db = filled(&[&["/a"], &["/b"]]);
    let before = listed(&mut db, 10);
    let r = db.update_worktree_roots(&WorkspaceId(2), &paths(&["/c", "/d", "/c"]));
    assert!(matches!(r, Err(DbError::Sqlite(_))));
    assert_eq!(listed(&mut db, 10), before);
    assert_eq!(db.workspace_id(&paths(&["/b"])).unwrap(), Some(WorkspaceId(2)));
}

#[test]
fn missing_workspace_changes_nothing() {
    let mut db = filled(&[&["/a"], &["/b"]]);
    let before = listed(&mut db, 10);
    // The workspace with these roots would be removed, were there a workspace 9.
    let r = db.update_worktree_roots(&WorkspaceId(9), &paths(&["/a"]));
    assert!(matches!(r, Err(DbError::Sqlite(_))));
    assert_eq!(listed(&mut db, 10), before);
    // The database goes on working.
    db.update_worktree_roots(&WorkspaceId(2), &paths(&["/a"])).unwrap();
    assert_eq!(listed(&mut db, 10), vec![(2, paths(&["/a"]))]);
}

#[test]
fn missing_workspace_can_be_given_no_roots() {
    let mut db = filled(&[&["/a"]]);
    db.update_worktree_roots(&WorkspaceId(9), &[]).unwrap();
    assert_eq!(listed(&mut db, 10), vec![(1, paths(&["/a"]))]);
}

#[test]
fn new_workspaces_are_numbered_from_one() {
    let mut db = Db::open_in_memory();
    assert_eq!(db.make_new_workspace().workspace_id, WorkspaceId(1));
    assert_eq!(db.make_new_workspace().workspace_id, WorkspaceId(2));
    assert_eq!(listed(&mut db, 10), vec![(1, vec![]), (2, vec![])]);
}

#[test]
fn ids_are_not_used_again() {
    let mut db = filled(&[&["/a"], &["/b"]]);
    // Workspace 2 goes, and it had the largest id.
    db.update_worktree_roots(&WorkspaceId(1), &paths(&["/b"])).unwrap();
    assert_eq!(listed(&mut db, 10), vec![(1, paths(&["/b"]))]);
    assert_eq!(db.make_new_workspace().workspace_id, WorkspaceId(3));
    // The roots of workspace 2 went with it.
    assert_eq!(db.workspace_id(&paths(&["/b"])).unwrap(), Some(WorkspaceId(1)));
}

#[test]
fn workspace_is_found_or_made() {
    let mut db = filled(&[&["/a"], &["/a", "/b"]]);
    let found = db.workspace_for_worktree_roots(&paths(&["/b", "/a"]));
    assert_eq!(found.workspace_id, WorkspaceId(2));
    assert_eq!(listed(&mut db, 10).len(), 2);
    let made = db.workspace_for_worktree_roots(&paths(&["/b"]));
    assert_eq!(made.workspace_id, WorkspaceId(3));
    // It has no roots yet, so it is not found.
    let again = db.workspace_for_worktree_roots(&paths(&["/b"]));
    assert_eq!(again.workspace_id, WorkspaceId(4));
    let empty = db.workspace_for_worktree_roots(&[]);
    assert_eq!(empty.workspace_id, WorkspaceId(5));
}

#[test]
fn update_is_found_again() {
    let mut db = filled(&[&["/a"], &["/b"]]);
    db.update_worktree_roots(&WorkspaceId(1), &paths(&["/c", "/d"])).unwrap();
    let found = db.workspace_for_worktree_roots(&paths(&["/d", "/c"]));
    assert_eq!(found.workspace_id, WorkspaceId(1));
    assert_eq!(listed(&mut db, 10).len(), 2);
}

#[test]
fn refused_lookup_makes_a_workspace() {
    let mut db = filled(&[&["/a"]]);
    let roots: Vec<PathBuf> = (0..32766).map(|k| PathBuf::from(k.to_string())).collect();
    assert!(matches!(db.workspace_id(&roots), Err(DbError::Sqlite(_))));
    assert_eq!(db.workspace_for_worktree_roots(&roots).workspace_id, WorkspaceId(2));
    assert_eq!(listed(&mut db, 10), vec![(1, paths(&["/a"])), (2, vec![])]);
}

#[test]
fn search_results_decide_what_is_made() {
    let mut db = Db::open_in_memory();
    assert_eq!(db.found_or_new(Ok(Some(WorkspaceId(8)))).workspace_id, WorkspaceId(8));
    assert_eq!(listed(&mut db, 10), vec![]);
    assert_eq!(db.found_or_new(Ok(None)).workspace_id, WorkspaceId(1));
    assert_eq!(db.found_or_new(Err(DbError::LimitTooLarge)).workspace_id, WorkspaceId(2));
    assert_eq!(listed(&mut db, 10).len(), 2);
}

#[test]
fn failed_insertion_gives_the_default() {
    assert_eq!(workspace_from_insert(Ok(WorkspaceId(5))).workspace_id, WorkspaceId(5));
    assert_eq!(
        workspace_from_insert(Err(DbError::LimitTooLarge)).workspace_id,
        WorkspaceId(0)
    );
    assert_eq!(WorkspaceId::default(), WorkspaceId(0));
    assert_eq!(SerializedWorkspace::default().workspace_id, WorkspaceId(0));
    let mut blank = Connection::open_in_memory().unwrap();
    assert!(matches!(insert_workspace(&mut blank), Err(DbError::Sqlite(_))));
}

#[test]
fn database_opens_empty() {
    let mut db = Db::open_in_memory();
    assert!(matches!(db, Db::Real(_)));
    assert_eq!(listed(&mut db, 10), vec![]);
}

#[test]
fn connection_that_failed_gives_the_null_database() {
    assert!(matches!(Db::or_null(Err(rusqlite::Error::InvalidQuery)), Db::Null));
    let mut filled = connection();
    insert_workspace(&mut filled).unwrap();
    let mut db = Db::or_null(Ok(filled));
    assert_eq!(listed(&mut db, 10), vec![(1, vec![])]);
}

#[test]
fn null_database_answers_with_dummies() {
    let mut db = Db::Null;
    assert_eq!(db.make_new_workspace().workspace_id, WorkspaceId(0));
    assert_eq!(db.workspace_id(&paths(&["/a"])).unwrap(), None);
    assert_eq!(db.workspace_for_worktree_roots(&paths(&["/a"])).workspace_id, WorkspaceId(0));
    assert!(db.update_worktree_roots(&WorkspaceId(1), &paths(&["/a", "/a"])).is_ok());
    assert!(db.recent_workspaces(10).unwrap().is_empty());
    assert!(db.recent_workspaces(usize::MAX).unwrap().is_empty());
}

#[test]
fn recent_workspaces_come_last_written_first() {
    let mut db = filled(&[&["/a"], &["/b"], &["/c"]]);
    wait_a_second();
    db.update_worktree_roots(&WorkspaceId(1), &paths(&["/a"])).unwrap();
    wait_a_second();
    db.update_worktree_roots(&WorkspaceId(3), &paths(&["/c"])).unwrap();
    let list = db.recent_workspaces(10).unwrap();
    assert_eq!(
        list,
        vec![
            (WorkspaceId(3), paths(&["/c"])),
            (WorkspaceId(1), paths(&["/a"])),
            (WorkspaceId(2), paths(&["/b"])),
        ]
    );
    assert_eq!(db.recent_workspaces(2).unwrap(), list[..2].to_vec());
    assert_eq!(db.recent_workspaces(1).unwrap(), list[..1].to_vec());
}

#[test]
fn limit_bounds_the_list() {
    let mut db = filled(&[&["/a"], &["/b"], &["/c"]]);
    assert_eq!(db.recent_workspaces(0).unwrap(), vec![]);
    assert_eq!(db.recent_workspaces(2).unwrap().len(), 2);
    assert_eq!(db.recent_workspaces(3).unwrap().len(), 3);
    assert_eq!(db.recent_workspaces(i64::MAX as usize).unwrap().len(), 3);
    assert!(matches!(
        db.recent_workspaces(i64::MAX as usize + 1),
        Err(DbError::LimitTooLarge)
    ));
    assert!(matches!(db.recent_workspaces(usize::MAX), Err(DbError::LimitTooLarge)));
    assert_eq!(db.recent_workspaces(3).unwrap().len(), 3);
}

#[test]
fn listed_roots_name_their_workspace() {
    let mut db = filled(&[&["/a", "/b"], &["/b"], &["/c", "/b", "/a"]]);
    let list = db.recent_workspaces(10).unwrap();
    assert_eq!(list.len(), 3);
    for (id, roots) in list {
        assert_eq!(db.workspace_id(&roots).unwrap(), Some(id));
    }
}

#[test]
fn roots_keep_their_text() {
    let odd = ["", " ", "it's", "a\"b", "%_", "caf\u{e9}/\u{1f980}", "line\nbreak", "?1", "a\0b"];
    let mut db = filled(&[&odd]);
    assert_eq!(db.workspace_id(&paths(&odd)).unwrap(), Some(WorkspaceId(1)));
    let mut expected = paths(&odd);
    expected.sort();
    assert_eq!(listed(&mut db, 1), vec![(1, expected)]);
    assert_eq!(db.workspace_id(&paths(&["A"])).unwrap(), None);
}

#[test]
fn case_and_prefixes_count() {
    let mut db = filled(&[&["/tmp"]]);
    assert_eq!(db.workspace_id(&paths(&["/TMP"])).unwrap(), None);
    assert_eq!(db.workspace_id(&paths(&["/tmp/"])).unwrap(), None);
    assert_eq!(db.workspace_id(&paths(&["/tm"])).unwrap(), None);
}

#[test]
fn paths_and_texts_convert() {
    assert_eq!(to_texts(&paths(&["/a", "b"])), strings(&["/a", "b"]));
    assert_eq!(to_paths(&strings(&["/a", "b"])), paths(&["/a", "b"]));
    assert!(to_texts(&[]).is_empty());
}

#[test]
fn open_transaction_stops_updates_and_lists() {
    let mut connection = connection();
    let id = insert_workspace(&mut connection).unwrap();
    replace_roots(&mut connection, id.0, &strings(&["/a"])).unwrap();
    connection.execute_batch("BEGIN").unwrap();
    assert!(replace_roots(&mut connection, id.0, &strings(&["/b"])).is_err());
    assert!(list_recent(&mut connection, 10).is_err());
    assert!(!connection.is_autocommit());
    assert_eq!(get_workspace_id(&strings(&["/a"]), &mut connection).unwrap(), Some(id));
    connection.execute_batch("COMMIT").unwrap();
    replace_roots(&mut connection, id.0, &strings(&["/b"])).unwrap();
    assert_eq!(list_recent(&mut connection, 10).unwrap(), vec![(1, strings(&["/b"]))]);
    assert!(connection.is_autocommit());
}

#[test]
fn failed_update_leaves_no_transaction_open() {
    let mut connection = connection();
    insert_workspace(&mut connection).unwrap();
    assert!(replace_roots(&mut connection, 1, &strings(&["/a", "/a"])).is_err());
    assert!(connection.is_autocommit());
    assert_eq!(list_recent(&mut connection, 10).unwrap(), vec![(1, vec![])]);
}

#[test]
fn ids_end_with_the_largest_integer() {
    let mut connection = connection();
    connection
        .execute("INSERT INTO workspaces(workspace_id) VALUES (?)", [i64::MAX])
        .unwrap();
    assert!(matches!(insert_workspace(&mut connection), Err(DbError::Sqlite(_))));
}
