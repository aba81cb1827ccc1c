use phonto::macos_live_lockscreen::steps::{
    Install, InstallAction, InstallFailure, InstallReply, Way,
};

use InstallReply::{Done, Exists, Failed};

/// The actions that follow the search for the catalog, up to the last reply.
fn actions(way: Way, remove: bool, replies: &[InstallReply]) -> Vec<InstallAction> {
    let mut install = Install::new(way, remove);
    let mut handed = Vec::new();
    for reply in replies {
        assert!(install.accepts(*reply));
        handed.push(install.step(*reply));
    }
    handed
}

#[test]
fn an_install_from_the_start() {
    assert_eq!(
        actions(
            Way::Transcode,
            false,
            &[Exists(true), Done, Done, Done, Exists(false), Done, Done, Done, Done],
        ),
        vec![
            InstallAction::CreateDirectories,
            InstallAction::Transcode,
            InstallAction::ExtractThumbnail,
            InstallAction::FindBackup,
            InstallAction::BackUp,
            InstallAction::ReadCatalog,
            InstallAction::WriteCatalog,
            InstallAction::Restart,
            InstallAction::Report,
        ]
    );
}

#[test]
fn a_backup_is_made_once() {
    let handed = actions(
        Way::Transcode,
        false,
        &[Exists(true), Done, Done, Done, Exists(true), Done, Done, Failed],
    );
    assert!(!handed.contains(&InstallAction::BackUp));
    assert_eq!(handed.last(), Some(&InstallAction::Report));
}

/// The catalog and its backup, through a run whose actions all succeed.
fn through(remove: bool, mut files: (String, Option<String>), new: &str) -> (String, Option<String>) {
    let mut install = Install::new(Way::Transcode, remove);
    let mut action = InstallAction::FindCatalog;
    while action != InstallAction::Report {
        let reply = match action {
            InstallAction::FindCatalog => Exists(true),
            InstallAction::FindBackup => Exists(files.1.is_some()),
            InstallAction::BackUp => {
                files.1 = Some(files.0.clone());
                Done
            }
            InstallAction::WriteCatalog => {
                files.0 = new.to_string();
                Done
            }
            _ => Done,
        };
        action = install.step(reply);
    }
    files
}

#[test]
fn the_backup_holds_the_first_catalog() {
    let mut files = ("t0".to_string(), None);
    for (remove, new) in [(false, "t1"), (false, "t2"), (true, "t3"), (false, "t4")] {
        files = through(remove, files, new);
        assert_eq!(files, (new.to_string(), Some("t0".to_string())));
    }
}

#[test]
fn a_removal_makes_no_backup() {
    let files = through(true, ("t0".to_string(), None), "t1");
    assert_eq!(files, ("t1".to_string(), None));
}

#[test]
fn nothing_is_written_after_a_failure() {
    let failed = InstallAction::Fail(InstallFailure::LastAction);
    for replies in [
        &[Exists(true), Failed][..],
        &[Exists(true), Done, Failed],
        &[Exists(true), Done, Done, Failed],
        &[Exists(true), Done, Done, Done, Exists(false), Failed],
        &[Exists(true), Done, Done, Done, Exists(true), Failed],
    ] {
        let handed = actions(Way::Transcode, false, replies);
        assert_eq!(handed.last(), Some(&failed));
        assert!(!handed.contains(&InstallAction::WriteCatalog));
    }
    let handed =
        actions(Way::Transcode, false, &[Exists(true), Done, Done, Done, Exists(true), Done, Failed]);
    assert_eq!(handed.last(), Some(&failed));
    assert_eq!(
        actions(Way::Copy, false, &[Exists(false)]),
        vec![InstallAction::Fail(InstallFailure::NoCatalog)]
    );
}

#[test]
fn a_removal() {
    for way in [Way::Transcode, Way::Copy] {
        assert_eq!(
            actions(way, true, &[Exists(true), Done, Done, Done, Done]),
            vec![
                InstallAction::ReadCatalog,
                InstallAction::WriteCatalog,
                InstallAction::DeleteFiles,
                InstallAction::Restart,
                InstallAction::Report,
            ]
        );
    }
}

#[test]
fn an_injection_makes_do_with_what_is_there() {
    assert_eq!(
        actions(Way::Copy, false, &[Exists(true), Done, Exists(true), Exists(true), Exists(true)]),
        vec![
            InstallAction::CreateDirectories,
            InstallAction::FindVideo,
            InstallAction::FindThumbnail,
            InstallAction::FindBackup,
            InstallAction::ReadCatalog,
        ]
    );
    assert_eq!(
        actions(
            Way::Copy,
            false,
            &[Exists(true), Done, Exists(false), Done, Exists(false), Failed, Exists(false)],
        ),
        vec![
            InstallAction::CreateDirectories,
            InstallAction::FindVideo,
            InstallAction::CopyVideo,
            InstallAction::FindThumbnail,
            InstallAction::ExtractThumbnail,
            InstallAction::FindBackup,
            InstallAction::BackUp,
        ]
    );
    assert_eq!(
        actions(Way::Copy, false, &[Exists(true), Done, Exists(false), Failed]).last(),
        Some(&InstallAction::Fail(InstallFailure::LastAction))
    );
}

#[test]
fn replies_must_answer() {
    let mut install = Install::new(Way::Transcode, false);
    assert!(!install.accepts(Done));
    install.step(Exists(false));
    for reply in [Done, Failed, Exists(true)] {
        assert!(!install.accepts(reply));
    }
}
