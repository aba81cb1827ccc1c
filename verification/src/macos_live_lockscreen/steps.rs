//! The steps by which a video comes into the catalog of aerial wallpapers, or leaves it.
//!
//! [`Install`] decides; whoever drives it acts. Each call of [`Install::step`] takes the
//! outcome of the last action and hands out the next one. The first action is
//! [`InstallAction::FindCatalog`].
use vstd::prelude::*;

use crate::seqs;

verus! {

/// How the video gets to its place.
#[derive(Debug, Clone, Copy, PartialEq, Eq, Structural)]
pub enum Way {
    /// It is encoded anew, and its thumbnail is needed.
    Transcode,
    /// It is copied, and both the copy and the thumbnail of an earlier time will do. A
    /// placeholder does for a thumbnail that cannot be had.
    Copy,
}

/// What an install waits for.
#[derive(Debug, Clone, Copy, PartialEq, Eq, Structural)]
pub enum InstallPhase {
    FindingCatalog,
    CreatingDirectories,
    Transcoding,
    FindingVideo,
    CopyingVideo,
    FindingThumbnail,
    ExtractingThumbnail,
    FindingBackup,
    BackingUp,
    ReadingCatalog,
    WritingCatalog,
    DeletingFiles,
    Restarting,
    Over,
}

/// What came of the last action.
#[derive(Debug, Clone, Copy, PartialEq, Eq, Structural)]
pub enum InstallReply {
    /// Whether what was looked for is there.
    Exists(bool),
    Done,
    Failed,
}

/// Why an install ends early.
#[derive(Debug, Clone, Copy, PartialEq, Eq, Structural)]
pub enum InstallFailure {
    /// There is no catalog.
    NoCatalog,
    /// The last action failed.
    LastAction,
}

/// What is to be done next.
#[derive(Debug, Clone, Copy, PartialEq, Eq, Structural)]
pub enum InstallAction {
    /// Tell whether the catalog is there.
    FindCatalog,
    /// Create the directories for videos and thumbnails.
    CreateDirectories,
    /// Encode the video to its place.
    Transcode,
    /// Tell whether the video is in its place.
    FindVideo,
    /// Copy the video to its place.
    CopyVideo,
    /// Tell whether the thumbnail is in its place.
    FindThumbnail,
    /// Make the thumbnail.
    ExtractThumbnail,
    /// Tell whether the catalog has been backed up.
    FindBackup,
    /// Back the catalog up.
    BackUp,
    /// Read the catalog, and change what was read.
    ReadCatalog,
    /// Write the changed catalog.
    WriteCatalog,
    /// Delete the video and the thumbnail, where they are there.
    DeleteFiles,
    /// Let the system read the catalog again.
    Restart,
    /// Tell the user that it is done.
    Report,
    /// The install ends.
    Fail(InstallFailure),
}

/// An install or a removal, step by step.
#[derive(Debug, Clone, Copy, PartialEq, Eq, Structural)]
pub struct Install {
    pub way: Way,
    pub remove: bool,
    pub phase: InstallPhase,
}

/// The reply answers what the install waits for.
pub open spec fn install_fits(phase: InstallPhase, reply: InstallReply) -> bool {
    match phase {
        InstallPhase::FindingCatalog | InstallPhase::FindingVideo | InstallPhase::FindingThumbnail
        | InstallPhase::FindingBackup => reply is Exists,
        InstallPhase::Over => false,
        _ => reply is Done || reply is Failed,
    }
}

/// The install in another phase, with the action of that phase.
pub open spec fn enter(s: Install, phase: InstallPhase, action: InstallAction) -> (
    Install,
    InstallAction,
) {
    (Install { phase, ..s }, action)
}

/// The next phase where the last action has succeeded, else the end.
pub open spec fn unless_failed(
    s: Install,
    reply: InstallReply,
    phase: InstallPhase,
    action: InstallAction,
) -> (Install, InstallAction) {
    if reply is Failed {
        enter(s, InstallPhase::Over, InstallAction::Fail(InstallFailure::LastAction))
    } else {
        enter(s, phase, action)
    }
}

/// One step.
pub open spec fn install_step(s: Install, reply: InstallReply) -> (Install, InstallAction) {
    match s.phase {
        InstallPhase::FindingCatalog => if reply == InstallReply::Exists(false) {
            enter(s, InstallPhase::Over, InstallAction::Fail(InstallFailure::NoCatalog))
        } else if s.remove {
            enter(s, InstallPhase::ReadingCatalog, InstallAction::ReadCatalog)
        } else {
            enter(s, InstallPhase::CreatingDirectories, InstallAction::CreateDirectories)
        },
        InstallPhase::CreatingDirectories => match s.way {
            Way::Transcode => unless_failed(
                s,
                reply,
                InstallPhase::Transcoding,
                InstallAction::Transcode,
            ),
            Way::Copy => unless_failed(
                s,
                reply,
                InstallPhase::FindingVideo,
                InstallAction::FindVideo,
            ),
        },
        InstallPhase::Transcoding => unless_failed(
            s,
            reply,
            InstallPhase::ExtractingThumbnail,
            InstallAction::ExtractThumbnail,
        ),
        InstallPhase::FindingVideo => if reply == InstallReply::Exists(true) {
            enter(s, InstallPhase::FindingThumbnail, InstallAction::FindThumbnail)
        } else {
            enter(s, InstallPhase::CopyingVideo, InstallAction::CopyVideo)
        },
        InstallPhase::CopyingVideo => unless_failed(
            s,
            reply,
            InstallPhase::FindingThumbnail,
            InstallAction::FindThumbnail,
        ),
        InstallPhase::FindingThumbnail => if reply == InstallReply::Exists(true) {
            enter(s, InstallPhase::FindingBackup, InstallAction::FindBackup)
        } else {
            enter(s, InstallPhase::ExtractingThumbnail, InstallAction::ExtractThumbnail)
        },
        InstallPhase::ExtractingThumbnail => match s.way {
            Way::Transcode => unless_failed(
                s,
                reply,
                InstallPhase::FindingBackup,
                InstallAction::FindBackup,
            ),
            Way::Copy => enter(s, InstallPhase::FindingBackup, InstallAction::FindBackup),
        },
        InstallPhase::FindingBackup => if reply == InstallReply::Exists(true) {
            enter(s, InstallPhase::ReadingCatalog, InstallAction::ReadCatalog)
        } else {
            enter(s, InstallPhase::BackingUp, InstallAction::BackUp)
        },
        InstallPhase::BackingUp => unless_failed(
            s,
            reply,
            InstallPhase::ReadingCatalog,
            InstallAction::ReadCatalog,
        ),
        InstallPhase::ReadingCatalog => unless_failed(
            s,
            reply,
            InstallPhase::WritingCatalog,
            InstallAction::WriteCatalog,
        ),
        InstallPhase::WritingCatalog => if s.remove {
            unless_failed(s, reply, InstallPhase::DeletingFiles, InstallAction::DeleteFiles)
        } else {
            unless_failed(s, reply, InstallPhase::Restarting, InstallAction::Restart)
        },
        InstallPhase::DeletingFiles => enter(
            s,
            InstallPhase::Restarting,
            InstallAction::Restart,
        ),
        InstallPhase::Restarting => enter(s, InstallPhase::Over, InstallAction::Report),
        InstallPhase::Over => (s, InstallAction::Report),
    }
}

impl Install {
    /// An install or a removal. The catalog is to be found.
    pub fn new(way: Way, remove: bool) -> (r: Install)
        ensures
            r == (Install { way, remove, phase: InstallPhase::FindingCatalog }),
    {
        Install { way, remove, phase: InstallPhase::FindingCatalog }
    }

    /// Whether the reply answers what the install waits for.
    pub fn accepts(&self, reply: InstallReply) -> (r: bool)
        ensures
            r == install_fits(self.phase, reply),
    {
        match self.phase {
            InstallPhase::FindingCatalog
            | InstallPhase::FindingVideo
            | InstallPhase::FindingThumbnail
            | InstallPhase::FindingBackup => matches!(reply, InstallReply::Exists(_)),
            InstallPhase::Over => false,
            _ => matches!(reply, InstallReply::Done | InstallReply::Failed),
        }
    }

    /// Enters a phase.
    fn go(&mut self, phase: InstallPhase, action: InstallAction) -> (r: InstallAction)
        ensures
            (*final(self), r) == enter(*old(self), phase, action),
    {
        self.phase = phase;
        action
    }

    /// Enters a phase where the last action has succeeded, else ends.
    fn go_on(&mut self, reply: InstallReply, phase: InstallPhase, action: InstallAction) -> (r:
        InstallAction)
        ensures
            (*final(self), r) == unless_failed(*old(self), reply, phase, action),
    {
        if reply == InstallReply::Failed {
            self.go(InstallPhase::Over, InstallAction::Fail(InstallFailure::LastAction))
        } else {
            self.go(phase, action)
        }
    }

    /// Takes what came of the last action, and says what is to be done next.
    pub fn step(&mut self, reply: InstallReply) -> (r: InstallAction)
        requires
            install_fits(old(self).phase, reply),
        ensures
            (*final(self), r) == install_step(*old(self), reply),
    {
        let there = reply == InstallReply::Exists(true);
        match self.phase {
            InstallPhase::FindingCatalog => if !there {
                self.go(InstallPhase::Over, InstallAction::Fail(InstallFailure::NoCatalog))
            } else if self.remove {
                self.go(InstallPhase::ReadingCatalog, InstallAction::ReadCatalog)
            } else {
                self.go(InstallPhase::CreatingDirectories, InstallAction::CreateDirectories)
            },
            InstallPhase::CreatingDirectories => match self.way {
                Way::Transcode => self.go_on(
                    reply,
                    InstallPhase::Transcoding,
                    InstallAction::Transcode,
                ),
                Way::Copy => self.go_on(
                    reply,
                    InstallPhase::FindingVideo,
                    InstallAction::FindVideo,
                ),
            },
            InstallPhase::Transcoding => self.go_on(
                reply,
                InstallPhase::ExtractingThumbnail,
                InstallAction::ExtractThumbnail,
            ),
            InstallPhase::FindingVideo => if there {
                self.go(InstallPhase::FindingThumbnail, InstallAction::FindThumbnail)
            } else {
                self.go(InstallPhase::CopyingVideo, InstallAction::CopyVideo)
            },
            InstallPhase::CopyingVideo => self.go_on(
                reply,
                InstallPhase::FindingThumbnail,
                InstallAction::FindThumbnail,
            ),
            InstallPhase::FindingThumbnail => if there {
                self.go(InstallPhase::FindingBackup, InstallAction::FindBackup)
            } else {
                self.go(InstallPhase::ExtractingThumbnail, InstallAction::ExtractThumbnail)
            },
            InstallPhase::ExtractingThumbnail => match self.way {
                Way::Transcode => self.go_on(
                    reply,
                    InstallPhase::FindingBackup,
                    InstallAction::FindBackup,
                ),
                Way::Copy => self.go(InstallPhase::FindingBackup, InstallAction::FindBackup),
            },
            InstallPhase::FindingBackup => if there {
                self.go(InstallPhase::ReadingCatalog, InstallAction::ReadCatalog)
            } else {
                self.go(InstallPhase::BackingUp, InstallAction::BackUp)
            },
            InstallPhase::BackingUp => self.go_on(
                reply,
                InstallPhase::ReadingCatalog,
                InstallAction::ReadCatalog,
            ),
            InstallPhase::ReadingCatalog => self.go_on(
                reply,
                InstallPhase::WritingCatalog,
                InstallAction::WriteCatalog,
            ),
            InstallPhase::WritingCatalog => if self.remove {
                self.go_on(reply, InstallPhase::DeletingFiles, InstallAction::DeleteFiles)
            } else {
                self.go_on(reply, InstallPhase::Restarting, InstallAction::Restart)
            },
            InstallPhase::DeletingFiles => self.go(
                InstallPhase::Restarting,
                InstallAction::Restart,
            ),
            InstallPhase::Restarting => self.go(InstallPhase::Over, InstallAction::Report),
            InstallPhase::Over => InstallAction::Report,
        }
    }
}

/// Where an install stands after these replies, and what is to be done next.
pub open spec fn progress(way: Way, remove: bool, replies: Seq<InstallReply>) -> (
    Install,
    InstallAction,
)
    decreases replies.len(),
{
    if replies.len() == 0 {
        (
            Install { way, remove, phase: InstallPhase::FindingCatalog },
            InstallAction::FindCatalog,
        )
    } else {
        install_step(progress(way, remove, replies.drop_last()).0, replies.last())
    }
}

/// The actions that have been handed out, each with what came of it.
pub open spec fn trace(way: Way, remove: bool, replies: Seq<InstallReply>) -> Seq<
    (InstallAction, InstallReply),
>
    decreases replies.len(),
{
    if replies.len() == 0 {
        Seq::empty()
    } else {
        let front = replies.drop_last();
        trace(way, remove, front).push((progress(way, remove, front).1, replies.last()))
    }
}

/// Each reply answers what the install waited for.
pub open spec fn install_run(way: Way, remove: bool, replies: Seq<InstallReply>) -> bool {
    forall|i: int|
        0 <= i < replies.len() ==> install_fits(
            (#[trigger] progress(way, remove, replies.take(i))).0.phase,
            replies[i],
        )
}

/// The action has been handed out, and this came of it.
pub open spec fn answered(
    way: Way,
    remove: bool,
    replies: Seq<InstallReply>,
    action: InstallAction,
    reply: InstallReply,
) -> bool {
    trace(way, remove, replies).contains((action, reply))
}

/// The action has been handed out, and something came of it.
pub open spec fn taken(
    way: Way,
    remove: bool,
    replies: Seq<InstallReply>,
    action: InstallAction,
) -> bool {
    exists|reply: InstallReply| #[trigger] answered(way, remove, replies, action, reply)
}

/// The phases behind the thumbnail.
pub open spec fn is_late(phase: InstallPhase) -> bool {
    phase == InstallPhase::FindingBackup || phase == InstallPhase::BackingUp || is_changing(phase)
}

/// The phases in which the catalog is changed, or has been.
pub open spec fn is_changing(phase: InstallPhase) -> bool {
    phase == InstallPhase::ReadingCatalog || phase == InstallPhase::WritingCatalog || phase
        == InstallPhase::DeletingFiles || phase == InstallPhase::Restarting
}

/// What has been answered stays answered.
proof fn answered_stays(way: Way, remove: bool, replies: Seq<InstallReply>)
    requires
        replies.len() > 0,
    ensures
        forall|a: InstallAction, r: InstallReply| #[trigger]
            answered(way, remove, replies, a, r) <==> answered(
                way,
                remove,
                replies.drop_last(),
                a,
                r,
            ) || (progress(way, remove, replies.drop_last()).1 == a && replies.last() == r),
        forall|a: InstallAction| #[trigger]
            taken(way, remove, replies, a) <==> taken(way, remove, replies.drop_last(), a)
                || progress(way, remove, replies.drop_last()).1 == a,
{
    let front = replies.drop_last();
    let handed = progress(way, remove, front).1;
    seqs::contains_push(trace(way, remove, front), (handed, replies.last()));
    assert forall|a: InstallAction| #[trigger]
        taken(way, remove, replies, a) <==> taken(way, remove, front, a) || handed == a by {
        if taken(way, remove, front, a) {
            let r = choose|r: InstallReply| #[trigger] answered(way, remove, front, a, r);
            assert(answered(way, remove, replies, a, r));
        }
        if handed == a {
            assert(answered(way, remove, replies, a, replies.last()));
        }
        if taken(way, remove, replies, a) {
            let r = choose|r: InstallReply| #[trigger] answered(way, remove, replies, a, r);
            assert(answered(way, remove, front, a, r) || handed == a);
        }
    }
}

/// A run without its last reply is a run, and the last reply fits it.
proof fn run_front(way: Way, remove: bool, replies: Seq<InstallReply>)
    requires
        install_run(way, remove, replies),
        replies.len() > 0,
    ensures
        install_run(way, remove, replies.drop_last()),
        install_fits(progress(way, remove, replies.drop_last()).0.phase, replies.last()),
{
    let front = replies.drop_last();
    assert forall|i: int| 0 <= i < front.len() implies install_fits(
        (#[trigger] progress(way, remove, front.take(i))).0.phase,
        front[i],
    ) by {
        assert(front.take(i) =~= replies.take(i));
        assert(install_fits(progress(way, remove, replies.take(i)).0.phase, replies[i]));
    }
    assert(replies.take(replies.len() - 1) =~= front);
    assert(install_fits(
        progress(way, remove, replies.take(replies.len() - 1)).0.phase,
        replies[replies.len() - 1],
    ));
}

/// What has been answered by the time that a phase is reached.
proof fn history(way: Way, remove: bool, replies: Seq<InstallReply>)
    requires
        install_run(way, remove, replies),
    ensures
        ({
            let (s, action) = progress(way, remove, replies);
            let done = |a: InstallAction, r: InstallReply| answered(way, remove, replies, a, r);
            let p = s.phase;
            &&& s.way == way && s.remove == remove
            &&& way == Way::Transcode ==> p != InstallPhase::FindingVideo && p
                != InstallPhase::CopyingVideo && p != InstallPhase::FindingThumbnail
            &&& way == Way::Copy ==> p != InstallPhase::Transcoding
            &&& remove ==> p == InstallPhase::FindingCatalog || is_changing(p) || p
                == InstallPhase::Over
            &&& action == InstallAction::WriteCatalog <==> p == InstallPhase::WritingCatalog
            &&& action == InstallAction::BackUp <==> p == InstallPhase::BackingUp
            &&& action == InstallAction::FindBackup <==> p == InstallPhase::FindingBackup
            &&& action == InstallAction::Transcode <==> p == InstallPhase::Transcoding
            &&& action == InstallAction::FindVideo <==> p == InstallPhase::FindingVideo
            &&& action == InstallAction::CopyVideo <==> p == InstallPhase::CopyingVideo
            &&& action == InstallAction::FindCatalog <==> p == InstallPhase::FindingCatalog
            &&& action == InstallAction::ExtractThumbnail <==> p
                == InstallPhase::ExtractingThumbnail
            &&& p != InstallPhase::FindingCatalog && action != InstallAction::Fail(
                InstallFailure::NoCatalog,
            ) ==> done(InstallAction::FindCatalog, InstallReply::Exists(true))
            &&& !remove && way == Way::Transcode && (p == InstallPhase::ExtractingThumbnail
                || is_late(p)) ==> done(InstallAction::Transcode, InstallReply::Done)
            &&& !remove && way == Way::Transcode && is_late(p) ==> done(
                InstallAction::ExtractThumbnail,
                InstallReply::Done,
            )
            &&& !remove && way == Way::Copy && (p == InstallPhase::FindingThumbnail || p
                == InstallPhase::ExtractingThumbnail || is_late(p)) ==> done(
                InstallAction::FindVideo,
                InstallReply::Exists(true),
            ) || done(InstallAction::CopyVideo, InstallReply::Done)
            &&& !remove && is_changing(p) ==> done(
                InstallAction::FindBackup,
                InstallReply::Exists(true),
            ) || done(InstallAction::BackUp, InstallReply::Done)
            &&& p == InstallPhase::BackingUp ==> done(
                InstallAction::FindBackup,
                InstallReply::Exists(false),
            )
            &&& p != InstallPhase::Over && !is_changing(p) ==> !taken(
                way,
                remove,
                replies,
                InstallAction::BackUp,
            )
            &&& !is_changing(p) && p != InstallPhase::Over || p == InstallPhase::ReadingCatalog
                || p == InstallPhase::WritingCatalog ==> !taken(
                way,
                remove,
                replies,
                InstallAction::WriteCatalog,
            )
            &&& done(InstallAction::BackUp, InstallReply::Failed) ==> p == InstallPhase::Over
            &&& remove ==> !taken(way, remove, replies, InstallAction::BackUp)
            &&& !remove && p == InstallPhase::Restarting ==> taken(
                way,
                remove,
                replies,
                InstallAction::WriteCatalog,
            )
            &&& !remove ==> p != InstallPhase::DeletingFiles
            &&& taken(way, remove, replies, InstallAction::BackUp) ==> done(
                InstallAction::FindBackup,
                InstallReply::Exists(false),
            )
        }),
    decreases replies.len(),
{
    if replies.len() > 0 {
        let front = replies.drop_last();
        run_front(way, remove, replies);
        history(way, remove, front);
        answered_stays(way, remove, replies);
    }
}

/// The catalog is written only after the video has been encoded and its thumbnail made: an
/// entry never points at a file that is missing. Where the video is copied, it is in its place.
pub proof fn catalog_law(way: Way, replies: Seq<InstallReply>)
    requires
        install_run(way, false, replies),
        progress(way, false, replies).1 == InstallAction::WriteCatalog,
    ensures
        answered(
            way,
            false,
            replies,
            InstallAction::FindCatalog,
            InstallReply::Exists(true),
        ),
        way == Way::Transcode ==> answered(
            way,
            false,
            replies,
            InstallAction::Transcode,
            InstallReply::Done,
        ) && answered(
            way,
            false,
            replies,
            InstallAction::ExtractThumbnail,
            InstallReply::Done,
        ),
        way == Way::Copy ==> answered(
            way,
            false,
            replies,
            InstallAction::FindVideo,
            InstallReply::Exists(true),
        ) || answered(way, false, replies, InstallAction::CopyVideo, InstallReply::Done),
{
    history(way, false, replies);
}

/// Where a step that an install cannot do without has failed, the install ends with that step:
/// nothing is handed out behind it, and the catalog is as it was. Only a copied video does
/// without its thumbnail.
pub proof fn failed_install_law(way: Way, replies: Seq<InstallReply>)
    requires
        install_run(way, false, replies),
        replies.len() > 0,
        replies.last() == InstallReply::Failed,
        !taken(way, false, replies, InstallAction::WriteCatalog),
        way == Way::Copy ==> progress(way, false, replies.drop_last()).1
            != InstallAction::ExtractThumbnail,
    ensures
        progress(way, false, replies).1 == InstallAction::Fail(InstallFailure::LastAction),
        forall|more: InstallReply| !#[trigger]
            install_fits(progress(way, false, replies).0.phase, more),
{
    run_front(way, false, replies);
    history(way, false, replies.drop_last());
    answered_stays(way, false, replies);
}

/// The catalog is backed up before an install first changes it: when it comes to be written,
/// either a backup was there or one has been made. A backup is made only where none was there,
/// and before anything is written; no install makes a second one.
pub proof fn backup_law(way: Way, replies: Seq<InstallReply>)
    requires
        install_run(way, false, replies),
    ensures
        progress(way, false, replies).1 == InstallAction::WriteCatalog ==> answered(
            way,
            false,
            replies,
            InstallAction::FindBackup,
            InstallReply::Exists(true),
        ) || answered(way, false, replies, InstallAction::BackUp, InstallReply::Done),
        progress(way, false, replies).1 == InstallAction::BackUp ==> {
            &&& answered(
                way,
                false,
                replies,
                InstallAction::FindBackup,
                InstallReply::Exists(false),
            )
            &&& !taken(way, false, replies, InstallAction::WriteCatalog)
            &&& !taken(way, false, replies, InstallAction::BackUp)
        },
{
    history(way, false, replies);
}

/// A backup is never overwritten: where one is there, and every answer says so, no install
/// and no removal makes another.
pub proof fn backup_stays_law(way: Way, remove: bool, replies: Seq<InstallReply>)
    requires
        install_run(way, remove, replies),
        !answered(
            way,
            remove,
            replies,
            InstallAction::FindBackup,
            InstallReply::Exists(false),
        ),
    ensures
        progress(way, remove, replies).1 != InstallAction::BackUp,
        !taken(way, remove, replies, InstallAction::BackUp),
{
    history(way, remove, replies);
}

/// The catalog and its backup, as they stand on disk.
pub struct Files {
    pub catalog: Seq<char>,
    pub backup: Option<Seq<char>>,
}

/// What an action, and what came of it, make of the files. A search tells the truth. A backup
/// that is made holds the catalog; one that fails may leave anything in its place. Whatever a
/// write leaves in the catalog, it leaves the backup alone. No other action touches the two.
pub open spec fn effect(
    before: Files,
    action: InstallAction,
    reply: InstallReply,
    after: Files,
) -> bool {
    match action {
        InstallAction::FindBackup => after == before && reply == InstallReply::Exists(
            before.backup is Some,
        ),
        InstallAction::BackUp => if reply is Done {
            after == Files { backup: Some(before.catalog), ..before }
        } else {
            after.catalog == before.catalog
        },
        InstallAction::WriteCatalog => after.backup == before.backup,
        _ => after == before,
    }
}

/// An install or a removal, finished or broken off: what came of its actions, and the files
/// before the first action and behind each.
pub struct Run {
    pub way: Way,
    pub remove: bool,
    pub replies: Seq<InstallReply>,
    pub files: Seq<Files>,
}

impl Run {
    /// The run without its last action.
    pub open spec fn front(self) -> Run {
        Run { replies: self.replies.drop_last(), files: self.files.drop_last(), ..self }
    }

    /// Each reply answers what the install waited for, and each action has its effect.
    pub open spec fn plays(self) -> bool
        decreases self.replies.len(),
    {
        &&& self.files.len() == self.replies.len() + 1
        &&& self.replies.len() > 0 ==> {
            let (s, action) = progress(self.way, self.remove, self.front().replies);
            &&& install_fits(s.phase, self.replies.last())
            &&& effect(
                self.files[self.files.len() - 2],
                action,
                self.replies.last(),
                self.files.last(),
            )
            &&& self.front().plays()
        }
    }

    /// The run has written the catalog, or tried to.
    pub open spec fn wrote(self) -> bool {
        taken(self.way, self.remove, self.replies, InstallAction::WriteCatalog)
    }

    /// The run has tried to make a backup, and failed.
    pub open spec fn missed_backup(self) -> bool {
        answered(
            self.way,
            self.remove,
            self.replies,
            InstallAction::BackUp,
            InstallReply::Failed,
        )
    }
}

/// The runs follow each other, the first on these files.
pub open spec fn follow(runs: Seq<Run>, start: Files) -> bool
    decreases runs.len(),
{
    runs.len() > 0 ==> {
        &&& runs.last().plays()
        &&& runs.last().files[0] == files_after(runs.drop_last(), start)
        &&& follow(runs.drop_last(), start)
    }
}

/// The files after the runs.
pub open spec fn files_after(runs: Seq<Run>, start: Files) -> Files {
    if runs.len() == 0 {
        start
    } else {
        runs.last().files.last()
    }
}

/// The files hold this text safe: in the backup, or still in the catalog.
pub open spec fn is_safe(files: Files, text: Seq<char>) -> bool {
    match files.backup {
        Some(backup) => backup == text,
        None => files.catalog == text,
    }
}

/// A run that plays is one whose replies fit.
proof fn plays_fit(r: Run)
    requires
        r.plays(),
    ensures
        install_run(r.way, r.remove, r.replies),
    decreases r.replies.len(),
{
    if r.replies.len() > 0 {
        let front = r.front();
        plays_fit(front);
        assert forall|i: int| 0 <= i < r.replies.len() implies install_fits(
            (#[trigger] progress(r.way, r.remove, r.replies.take(i))).0.phase,
            r.replies[i],
        ) by {
            assert(r.replies.take(r.replies.len() - 1) =~= front.replies);
            if i < front.replies.len() {
                assert(r.replies.take(i) =~= front.replies.take(i));
                assert(install_fits(
                    progress(r.way, r.remove, front.replies.take(i)).0.phase,
                    front.replies[i],
                ));
            }
        }
    }
}

/// What a run does to files that hold a text safe.
proof fn run_keeps(r: Run, text: Seq<char>)
    requires
        r.plays(),
        is_safe(r.files[0], text),
        r.remove && r.wrote() ==> r.files[0].backup is Some,
        r.missed_backup() ==> r.files.last().backup is None,
    ensures
        is_safe(r.files.last(), text),
        r.files[0].backup is Some ==> r.files.last().backup == r.files[0].backup,
        !r.remove && r.wrote() ==> r.files.last().backup is Some,
        ({
            let p = progress(r.way, r.remove, r.replies).0.phase;
            &&& p == InstallPhase::BackingUp ==> r.files.last().backup is None
            &&& !r.remove && is_changing(p) ==> r.files.last().backup is Some
        }),
    decreases r.replies.len(),
{
    plays_fit(r);
    history(r.way, r.remove, r.replies);
    if r.replies.len() > 0 {
        let front = r.front();
        plays_fit(front);
        history(r.way, r.remove, front.replies);
        answered_stays(r.way, r.remove, r.replies);
        assert(front.files[0] == r.files[0]);
        assert(front.files.last() == r.files[r.files.len() - 2]);
        assert(!front.missed_backup());
        assert(front.wrote() ==> r.wrote());
        run_keeps(front, text);
    } else {
        assert(trace(r.way, r.remove, r.replies) =~= Seq::empty());
    }
}

/// However many installs and removals there are, the backup holds the catalog as it was before
/// the first change: once an install has written the catalog, the backup is there and holds
/// the first text; until there is a backup, the catalog still has that text itself. A removal
/// makes no backup, so this leaves out one that writes the catalog while there is none, and a
/// backup that fails and leaves something in its place.
pub proof fn first_catalog_law(runs: Seq<Run>, text: Seq<char>)
    requires
        follow(runs, Files { catalog: text, backup: None }),
        forall|k: int|
            0 <= k < runs.len() && (#[trigger] runs[k]).remove && runs[k].wrote()
                ==> runs[k].files[0].backup is Some,
        forall|k: int|
            0 <= k < runs.len() && (#[trigger] runs[k]).missed_backup()
                ==> runs[k].files.last().backup is None,
    ensures
        ({
            let end = files_after(runs, Files { catalog: text, backup: None });
            &&& (exists|k: int|
                0 <= k < runs.len() && !(#[trigger] runs[k]).remove && runs[k].wrote())
                ==> end.backup == Some(text)
            &&& end.backup is Some ==> end.backup == Some(text)
            &&& end.backup is None ==> end.catalog == text
        }),
    decreases runs.len(),
{
    if runs.len() > 0 {
        let front = runs.drop_last();
        assert forall|k: int|
            0 <= k < front.len() && (#[trigger] front[k]).remove
                && front[k].wrote() implies front[k].files[0].backup is Some by {
            assert(front[k] == runs[k]);
        }
        assert forall|k: int|
            0 <= k < front.len() && (
            #[trigger] front[k]).missed_backup() implies front[k].files.last().backup is None by {
            assert(front[k] == runs[k]);
        }
        first_catalog_law(front, text);
        assert(runs.last() == runs[runs.len() - 1]);
        run_keeps(runs.last(), text);
        if exists|k: int|
            0 <= k < runs.len() && !(#[trigger] runs[k]).remove && runs[k].wrote() {
            let k = choose|k: int|
                0 <= k < runs.len() && !(#[trigger] runs[k]).remove && runs[k].wrote();
            if k < front.len() {
                assert(front[k] == runs[k]);
            }
        }
    }
}

/// A backup that is there stays as it is, whatever installs and removals follow.
pub proof fn backup_kept_law(runs: Seq<Run>, start: Files)
    requires
        follow(runs, start),
        start.backup is Some,
    ensures
        files_after(runs, start).backup == start.backup,
    decreases runs.len(),
{
    if runs.len() > 0 {
        backup_kept_law(runs.drop_last(), start);
        run_keeps_backup(runs.last());
    }
}

/// A run leaves a backup alone that is there.
proof fn run_keeps_backup(r: Run)
    requires
        r.plays(),
        r.files[0].backup is Some,
    ensures
        r.files.last().backup == r.files[0].backup,
        progress(r.way, r.remove, r.replies).0.phase != InstallPhase::BackingUp,
    decreases r.replies.len(),
{
    if r.replies.len() > 0 {
        let front = r.front();
        plays_fit(front);
        history(r.way, r.remove, front.replies);
        assert(front.files[0] == r.files[0]);
        assert(front.files.last() == r.files[r.files.len() - 2]);
        run_keeps_backup(front);
    }
}

/// The phase in which an action is under way.
proof fn phase_of_action(way: Way, remove: bool, replies: Seq<InstallReply>)
    requires
        install_run(way, remove, replies),
    ensures
        ({
            let (s, action) = progress(way, remove, replies);
            &&& s.way == way && s.remove == remove
            &&& s.phase == match action {
                InstallAction::FindCatalog => InstallPhase::FindingCatalog,
                InstallAction::CreateDirectories => InstallPhase::CreatingDirectories,
                InstallAction::Transcode => InstallPhase::Transcoding,
                InstallAction::FindVideo => InstallPhase::FindingVideo,
                InstallAction::CopyVideo => InstallPhase::CopyingVideo,
                InstallAction::FindThumbnail => InstallPhase::FindingThumbnail,
                InstallAction::ExtractThumbnail => InstallPhase::ExtractingThumbnail,
                InstallAction::FindBackup => InstallPhase::FindingBackup,
                InstallAction::BackUp => InstallPhase::BackingUp,
                InstallAction::ReadCatalog => InstallPhase::ReadingCatalog,
                InstallAction::WriteCatalog => InstallPhase::WritingCatalog,
                InstallAction::DeleteFiles => InstallPhase::DeletingFiles,
                InstallAction::Restart => InstallPhase::Restarting,
                InstallAction::Report => InstallPhase::Over,
                InstallAction::Fail(_) => InstallPhase::Over,
            }
        }),
    decreases replies.len(),
{
    if replies.len() > 0 {
        run_front(way, remove, replies);
        phase_of_action(way, remove, replies.drop_last());
    }
}

/// What follows what, told by the actions and their outcomes alone. The catalog must be
/// there. A removal goes straight to it. An install first makes the directories, then encodes
/// the video, or copies it where it is not in its place, then makes the thumbnail, which a
/// copy needs only where it is not in its place, then the backup, where there is none. Either
/// reads the catalog, writes it and has it read again; a removal deletes the files in between.
/// Any failure ends the run, but for that of a thumbnail beside a copy, of the deletion and of
/// the last step.
pub proof fn order_law(way: Way, remove: bool, replies: Seq<InstallReply>)
    requires
        install_run(way, remove, replies),
        replies.len() > 0,
    ensures
        ({
            let was = progress(way, remove, replies.drop_last()).1;
            let reply = replies.last();
            let next = progress(way, remove, replies).1;
            let failed = reply == InstallReply::Failed;
            let there = reply == InstallReply::Exists(true);
            let ended = InstallAction::Fail(InstallFailure::LastAction);
            match was {
                InstallAction::FindCatalog => if !there {
                    next == InstallAction::Fail(InstallFailure::NoCatalog)
                } else if remove {
                    next == InstallAction::ReadCatalog
                } else {
                    next == InstallAction::CreateDirectories
                },
                InstallAction::CreateDirectories => if failed {
                    next == ended
                } else if way == Way::Transcode {
                    next == InstallAction::Transcode
                } else {
                    next == InstallAction::FindVideo
                },
                InstallAction::Transcode => if failed {
                    next == ended
                } else {
                    next == InstallAction::ExtractThumbnail
                },
                InstallAction::FindVideo => if there {
                    next == InstallAction::FindThumbnail
                } else {
                    next == InstallAction::CopyVideo
                },
                InstallAction::CopyVideo => if failed {
                    next == ended
                } else {
                    next == InstallAction::FindThumbnail
                },
                InstallAction::FindThumbnail => if there {
                    next == InstallAction::FindBackup
                } else {
                    next == InstallAction::ExtractThumbnail
                },
                InstallAction::ExtractThumbnail => if failed && way == Way::Transcode {
                    next == ended
                } else {
                    next == InstallAction::FindBackup
                },
                InstallAction::FindBackup => if there {
                    next == InstallAction::ReadCatalog
                } else {
                    next == InstallAction::BackUp
                },
                InstallAction::BackUp => if failed {
                    next == ended
                } else {
                    next == InstallAction::ReadCatalog
                },
                InstallAction::ReadCatalog => if failed {
                    next == ended
                } else {
                    next == InstallAction::WriteCatalog
                },
                InstallAction::WriteCatalog => if failed {
                    next == ended
                } else if remove {
                    next == InstallAction::DeleteFiles
                } else {
                    next == InstallAction::Restart
                },
                InstallAction::DeleteFiles => next == InstallAction::Restart,
                InstallAction::Restart => next == InstallAction::Report,
                InstallAction::Report => false,
                InstallAction::Fail(_) => false,
            }
        }),
{
    run_front(way, remove, replies);
    phase_of_action(way, remove, replies.drop_last());
    phase_of_action(way, remove, replies);
}

/// What is reported is done: the catalog has been written, and the system has been let read
/// it again. The files are deleted in a removal, and in a removal alone.
pub proof fn report_law(way: Way, remove: bool, replies: Seq<InstallReply>)
    requires
        install_run(way, remove, replies),
    ensures
        ({
            let action = progress(way, remove, replies).1;
            let written = answered(
                way,
                remove,
                replies,
                InstallAction::WriteCatalog,
                InstallReply::Done,
            );
            let deleted = taken(way, remove, replies, InstallAction::DeleteFiles);
            &&& action == InstallAction::Report ==> written && taken(
                way,
                remove,
                replies,
                InstallAction::Restart,
            )
            &&& action == InstallAction::Restart || action == InstallAction::DeleteFiles ==> written
            &&& action == InstallAction::Report || action == InstallAction::Restart ==> deleted
                == remove
            &&& !remove ==> !deleted && action != InstallAction::DeleteFiles
        }),
    decreases replies.len(),
{
    if replies.len() > 0 {
        let front = replies.drop_last();
        run_front(way, remove, replies);
        report_law(way, remove, front);
        order_law(way, remove, replies);
        answered_stays(way, remove, replies);
        phase_of_action(way, remove, front);
    } else {
        assert(trace(way, remove, replies) =~= Seq::empty());
    }
}

/// An install takes every answer to what it asked for: whether something is there where it
/// looked for it, and that it was done or that it failed where something was to be done.
/// Behind the end it takes none.
pub proof fn accepts_law(way: Way, remove: bool, replies: Seq<InstallReply>, there: bool)
    requires
        install_run(way, remove, replies),
    ensures
        ({
            let (s, action) = progress(way, remove, replies);
            let looks = action == InstallAction::FindCatalog || action == InstallAction::FindVideo
                || action == InstallAction::FindThumbnail || action == InstallAction::FindBackup;
            let ends = action == InstallAction::Report || action is Fail;
            &&& install_fits(s.phase, InstallReply::Exists(there)) <==> looks
            &&& install_fits(s.phase, InstallReply::Done) <==> !looks && !ends
            &&& install_fits(s.phase, InstallReply::Failed) <==> !looks && !ends
        }),
{
    phase_of_action(way, remove, replies);
}

} // verus!
