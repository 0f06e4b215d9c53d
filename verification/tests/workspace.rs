use std::path::PathBuf;
use std::time::{Duration, Instant};

use workspace_db::{Db, WorkspaceId};

fn paths(texts: &[&str]) -> Vec<PathBuf> {
    texts.iter().map(PathBuf::from).collect()
}

/// Lets the clock of the database, which counts seconds, move on.
fn wait_a_second() {
    let start = Instant::now();
    while start.elapsed() < Duration::from_millis(1100) {}
}

#[test]
fn test_more_workspace_ids() {
    let data = &[
        (WorkspaceId(1), vec!["/tmp1"]),
        (WorkspaceId(2), vec!["/tmp1", "/tmp2"]),
        (WorkspaceId(3), vec!["/tmp1", "/tmp2", "/tmp3"]),
        (WorkspaceId(4), vec!["/tmp2", "/tmp3"]),
        (WorkspaceId(5), vec!["/tmp2", "/tmp3", "/tmp4"]),
        (WorkspaceId(6), vec!["/tmp2", "/tmp4"]),
        (WorkspaceId(7), vec!["/tmp2"]),
    ];

    let mut db = Db::open_in_memory();

    for (workspace_id, entries) in data {
        db.make_new_workspace();
        db.update_worktree_roots(workspace_id, &paths(entries)).unwrap();
    }

    assert_eq!(Some(WorkspaceId(1)), db.workspace_id(&paths(&["/tmp1"])).unwrap());
    assert_eq!(
        db.workspace_id(&paths(&["/tmp1", "/tmp2"])).unwrap(),
        Some(WorkspaceId(2))
    );
    assert_eq!(
        db.workspace_id(&paths(&["/tmp1", "/tmp2", "/tmp3"])).unwrap(),
        Some(WorkspaceId(3))
    );
    assert_eq!(
        db.workspace_id(&paths(&["/tmp2", "/tmp3"])).unwrap(),
        Some(WorkspaceId(4))
    );
    assert_eq!(
        db.workspace_id(&paths(&["/tmp2", "/tmp3", "/tmp4"])).unwrap(),
        Some(WorkspaceId(5))
    );
    assert_eq!(
        db.workspace_id(&paths(&["/tmp2", "/tmp4"])).unwrap(),
        Some(WorkspaceId(6))
    );
    assert_eq!(db.workspace_id(&paths(&["/tmp2"])).unwrap(), Some(WorkspaceId(7)));

    assert_eq!(db.workspace_id(&paths(&["/tmp1", "/tmp5"])).unwrap(), None);
    assert_eq!(db.workspace_id(&paths(&["/tmp5"])).unwrap(), None);
    assert_eq!(
        db.workspace_id(&paths(&["/tmp2", "/tmp3", "/tmp4", "/tmp5"]))
            .unwrap(),
        None
    );
}

#[test]
fn test_detect_workspace_id() {
    let data = &[
        (WorkspaceId(1), vec!["/tmp"]),
        (WorkspaceId(2), vec!["/tmp", "/tmp2"]),
        (WorkspaceId(3), vec!["/tmp", "/tmp2", "/tmp3"]),
    ];

    let mut db = Db::open_in_memory();

    for (workspace_id, entries) in data {
        db.make_new_workspace();
        db.update_worktree_roots(workspace_id, &paths(entries)).unwrap();
    }

    assert_eq!(db.workspace_id(&paths(&["/tmp2"])).unwrap(), None);
    assert_eq!(db.workspace_id(&paths(&["/tmp2", "/tmp3"])).unwrap(), None);
    assert_eq!(db.workspace_id(&paths(&["/tmp"])).unwrap(), Some(WorkspaceId(1)));
    assert_eq!(
        db.workspace_id(&paths(&["/tmp", "/tmp2"])).unwrap(),
        Some(WorkspaceId(2))
    );
    assert_eq!(
        db.workspace_id(&paths(&["/tmp", "/tmp2", "/tmp3"])).unwrap(),
        Some(WorkspaceId(3))
    );
}

#[test]
fn test_tricky_overlapping_updates() {
    // The database holds:
    // (/tmp) -> ID: 1
    // (/tmp, /tmp2) -> ID: 2
    // (/tmp2, /tmp3) -> ID: 3
    //
    // The user updates 2 to: (/tmp2, /tmp3)
    //
    // Then it holds:
    // (/tmp) -> ID: 1
    // (/tmp2, /tmp3) -> ID: 2
    // and 3 is collected.

    let data = &[
        (WorkspaceId(1), vec!["/tmp"]),
        (WorkspaceId(2), vec!["/tmp", "/tmp2"]),
        (WorkspaceId(3), vec!["/tmp2", "/tmp3"]),
    ];

    let mut db = Db::open_in_memory();

    // Load in the test data
    for (workspace_id, entries) in data {
        db.workspace_for_worktree_roots(&[]);
        db.update_worktree_roots(workspace_id, &paths(entries)).unwrap();
    }

    // Make sure the timestamp updates
    wait_a_second();
    // Execute the update
    db.update_worktree_roots(&WorkspaceId(2), &paths(&["/tmp2", "/tmp3"]))
        .unwrap();

    // Make sure that workspace 3 doesn't exist
    assert_eq!(
        db.workspace_id(&paths(&["/tmp2", "/tmp3"])).unwrap(),
        Some(WorkspaceId(2))
    );

    // And that workspace 1 was untouched
    assert_eq!(db.workspace_id(&paths(&["/tmp"])).unwrap(), Some(WorkspaceId(1)));

    // And that workspace 2 is no longer registered under this
    assert_eq!(db.workspace_id(&paths(&["/tmp", "/tmp2"])).unwrap(), None);

    let recent_workspaces = db.recent_workspaces(10).unwrap();
    assert_eq!(
        recent_workspaces.get(0).unwrap(),
        &(WorkspaceId(2), paths(&["/tmp2", "/tmp3"]))
    );
    assert_eq!(
        recent_workspaces.get(1).unwrap(),
        &(WorkspaceId(1), paths(&["/tmp"]))
    );
}
