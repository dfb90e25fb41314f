//! The recursive folder-download engine.
//!
//! A whole remote subtree is mirrored into a local directory by a
//! depth-first, pre-order walk over the one control connection. The
//! walk is an explicit step machine: each step decides the next I/O
//! action (make a local directory, change remote directory, list,
//! fetch a file, write a file, restore the original directory) and the
//! driver reports each outcome back.
//!
//! The contract pins the whole step relation, not just safety: after
//! every acknowledged action the next action is the one the traversal
//! demands — enter after the local directory, list after entering,
//! then the listed entries one by one in listing order, descending
//! into each directory and returning to its parent afterwards, and a
//! write of exactly the fetched bytes for each file. A walk can
//! therefore only finish by consuming every entry of every listing it
//! was given, and the finish total equals the byte sum of the files it
//! wrote. Any reported failure is recorded with its verb-prefixed
//! message and aborts the walk after one best-effort return to the
//! original working directory; what was already written locally stays
//! (no rollback — the engine has no delete action).

use vstd::prelude::*;
use vstd::string::StrSliceExecFns;
use vstd::string::StringExecFns;

use crate::errors::FtpError;
use crate::errors::error_text;
use crate::errors::is_transfer_error;
use crate::listing::RemoteEntryView;
use crate::listing::RemoteFileEntry;
use crate::listing::parse_lines;
use crate::listing::parsed_views;
use crate::order::views_of;
use crate::session::prefixed;

verus! {

/// The next I/O the driver must perform, or the walk's result.
pub enum WalkAction {
    /// Create the local directory (and its parents) if absent; answer
    /// `Done`.
    MakeLocalDir { local: String },
    /// Change the remote working directory; answer `Done`.
    ChangeDir { remote: String },
    /// List the current remote directory; answer `Listed`.
    ListDir,
    /// Retrieve the named file from the current remote directory,
    /// buffered whole; answer `Fetched`.
    FetchFile { name: String },
    /// Write the payload to the local path; answer `Done`.
    WriteLocal { local: String, data: Vec<u8> },
    /// Change back to the original remote working directory, best
    /// effort; answer `Done` or `Failed`, either is accepted.
    RestoreDir { remote: String },
    /// The walk succeeded; the total is the sum of all written file
    /// sizes. Terminal.
    Finish { total: u64 },
    /// The walk failed; already-written local files remain. Terminal.
    Fail { error: FtpError },
}

/// The driver's report on the action it was given.
pub enum WalkEvent {
    Done,
    Listed { lines: Vec<String> },
    Fetched { data: Vec<u8> },
    Failed { raw: String },
}

/// One written file, as the ghost record of the walk: where it was
/// fetched from, where it was written, and its size.
pub ghost struct WriteRecord {
    pub remote: Seq<char>,
    pub local: Seq<char>,
    pub len: nat,
}

/// The abstract image of one traversal frame: a remote directory, its
/// local counterpart, its parsed entries in listing order, and how
/// many of them are already consumed.
pub ghost struct FrameView {
    pub remote: Seq<char>,
    pub local: Seq<char>,
    pub entries: Seq<RemoteEntryView>,
    pub done: nat,
}

/// A path below a base, joined with a single `/`.
pub open spec fn joined(base: Seq<char>, name: Seq<char>) -> Seq<char> {
    base + seq!['/'] + name
}

spec fn frame_ok(f: Frame, root_remote: Seq<char>, root_local: Seq<char>) -> bool {
    &&& f.next <= f.entries.len()
    &&& (exists|rel: Seq<char>| f.remote@ == root_remote + rel && f.local@ == root_local + rel)
}

/// The record sits at the same relative path below both roots.
pub open spec fn mirrored(rec: WriteRecord, root_remote: Seq<char>, root_local: Seq<char>) -> bool {
    exists|rel: Seq<char>| rec.remote == root_remote + rel && rec.local == root_local + rel
}

/// The byte total of a run of written files.
pub open spec fn sum_written(s: Seq<WriteRecord>) -> nat
    decreases s.len(),
{
    if s.len() == 0 {
        0
    } else {
        sum_written(s.drop_last()) + s.last().len
    }
}

/// The remote directory to walk, made absolute: kept as given when it
/// starts with `/`, else joined to the working directory with a single
/// separator.
pub open spec fn resolved_remote(remote: Seq<char>, cwd: Seq<char>) -> Seq<char> {
    if remote.len() > 0 && remote[0] == '/' {
        remote
    } else if cwd.len() > 0 && cwd.last() == '/' {
        cwd + remote
    } else {
        cwd + seq!['/'] + remote
    }
}

/// Resolve the requested remote directory against the working
/// directory.
pub fn resolve_remote(remote_dir: &str, cwd: &str) -> (r: String)
    ensures
        r@ == resolved_remote(remote_dir@, cwd@),
{
    proof {
        reveal_strlit("/");
    }
    let n = remote_dir.unicode_len();
    if n > 0 && remote_dir.get_char(0) == '/' {
        remote_dir.to_owned()
    } else {
        let m = cwd.unicode_len();
        if m > 0 && cwd.get_char(m - 1) == '/' {
            prefixed(cwd, remote_dir)
        } else {
            let mut s = cwd.to_owned();
            s.append("/");
            s.append(remote_dir);
            proof {
                assert(s@ =~= cwd@ + seq!['/'] + remote_dir@);
            }
            s
        }
    }
}

/// A path below a base, joined with a single `/`.
fn child_path(base: &str, name: &str) -> (r: String)
    ensures
        r@ == joined(base@, name@),
{
    proof {
        reveal_strlit("/");
    }
    let mut s = base.to_owned();
    s.append("/");
    s.append(name);
    proof {
        assert(s@ =~= base@ + seq!['/'] + name@);
    }
    s
}

struct Frame {
    remote: String,
    local: String,
    entries: Vec<RemoteFileEntry>,
    next: usize,
}

enum Phase {
    /// Awaiting `Done` for `MakeLocalDir` of the top frame.
    MkDir,
    /// Awaiting `Done` for `ChangeDir` into the top frame.
    Enter,
    /// Awaiting `Listed` for the top frame.
    List,
    /// Awaiting `Fetched` for the named entry of the top frame.
    Fetch { name: String, local: String },
    /// Awaiting `Done` for `WriteLocal` of the named entry.
    Write { name: String, local: String, len: u64 },
    /// Awaiting `Done` for `ChangeDir` back into the top frame after a
    /// finished child.
    Return,
    /// Awaiting the best-effort `RestoreDir` outcome.
    Restore,
    /// The result has been issued.
    Finished,
}

/// The state of one folder download.
pub struct Walk {
    frames: Vec<Frame>,
    phase: Phase,
    total: u64,
    orig_cwd: String,
    root_remote: String,
    root_local: String,
    failure: Option<FtpError>,
    cwd: Ghost<Seq<char>>,
    written: Ghost<Seq<WriteRecord>>,
    restored: Ghost<bool>,
    listing: Ghost<Seq<RemoteEntryView>>,
}

spec fn view_of_frame(f: Frame) -> FrameView {
    FrameView {
        remote: f.remote@,
        local: f.local@,
        entries: views_of(f.entries@),
        done: f.next as nat,
    }
}

impl Walk {
    /// The traversal stack: the root frame first, the directory being
    /// worked on last.
    pub closed spec fn frames_view(&self) -> Seq<FrameView> {
        self.frames@.map_values(|f: Frame| view_of_frame(f))
    }

    pub open spec fn depth(&self) -> nat {
        self.frames_view().len()
    }

    /// The frame being worked on.
    pub open spec fn current(&self) -> FrameView {
        self.frames_view().last()
    }

    pub closed spec fn written(&self) -> Seq<WriteRecord> {
        self.written@
    }

    pub closed spec fn total_spec(&self) -> u64 {
        self.total
    }

    pub closed spec fn orig_cwd_view(&self) -> Seq<char> {
        self.orig_cwd@
    }

    pub closed spec fn root_remote_view(&self) -> Seq<char> {
        self.root_remote@
    }

    pub closed spec fn root_local_view(&self) -> Seq<char> {
        self.root_local@
    }

    /// The remote working directory, as established by the
    /// acknowledged directory changes.
    pub closed spec fn cwd_view(&self) -> Seq<char> {
        self.cwd@
    }

    /// Whether the closing restore of the working directory was
    /// acknowledged.
    pub closed spec fn restored(&self) -> bool {
        self.restored@
    }

    /// The entries of the most recent listing, in listing order.
    pub closed spec fn last_listing(&self) -> Seq<RemoteEntryView> {
        self.listing@
    }

    pub closed spec fn awaiting_mkdir(&self) -> bool {
        self.phase is MkDir
    }

    pub closed spec fn awaiting_enter(&self) -> bool {
        self.phase is Enter
    }

    pub closed spec fn awaiting_list(&self) -> bool {
        self.phase is List
    }

    pub closed spec fn awaiting_fetch(&self) -> bool {
        self.phase is Fetch
    }

    pub closed spec fn awaiting_write(&self) -> bool {
        self.phase is Write
    }

    pub closed spec fn awaiting_return(&self) -> bool {
        self.phase is Return
    }

    pub closed spec fn in_restore(&self) -> bool {
        self.phase is Restore
    }

    pub closed spec fn finished(&self) -> bool {
        self.phase is Finished
    }

    /// The name of the file being fetched or written.
    pub closed spec fn pending_name(&self) -> Seq<char> {
        match self.phase {
            Phase::Fetch { name, local } => name@,
            Phase::Write { name, local, len } => name@,
            _ => Seq::empty(),
        }
    }

    /// The local destination of the file being fetched or written.
    pub closed spec fn pending_local(&self) -> Seq<char> {
        match self.phase {
            Phase::Fetch { name, local } => local@,
            Phase::Write { name, local, len } => local@,
            _ => Seq::empty(),
        }
    }

    /// The byte length of the payload being written.
    pub closed spec fn pending_len(&self) -> nat {
        match self.phase {
            Phase::Write { name, local, len } => len as nat,
            _ => 0,
        }
    }

    /// The recorded failure, if the walk has one.
    pub closed spec fn stored_failure(&self) -> Option<FtpError> {
        self.failure
    }

    /// Whether a failure has been recorded.
    pub open spec fn failed(&self) -> bool {
        self.stored_failure() is Some
    }

    /// The walk's invariant.
    pub closed spec fn wf(&self) -> bool {
        &&& self.total as nat == sum_written(self.written@)
        &&& (forall|k: int|
            0 <= k < self.written@.len() ==> mirrored(
                #[trigger] self.written@[k],
                self.root_remote@,
                self.root_local@,
            ))
        &&& (forall|i: int|
            0 <= i < self.frames@.len() ==> frame_ok(
                #[trigger] self.frames@[i],
                self.root_remote@,
                self.root_local@,
            ))
        &&& (match self.phase {
            Phase::MkDir | Phase::Enter | Phase::List | Phase::Return => self.frames@.len() >= 1,
            Phase::Fetch { name, local } => self.frames@.len() >= 1 && local@ == self.frames@.last().local@
                + seq!['/'] + name@,
            Phase::Write { name, local, len } => self.frames@.len() >= 1 && local@
                == self.frames@.last().local@ + seq!['/'] + name@,
            Phase::Restore | Phase::Finished => true,
        })
        &&& ((self.phase is Restore || self.phase is Finished) && self.failure is None
            ==> self.frames@.len() == 0)
        &&& (!(self.phase is Restore) && !(self.phase is Finished) ==> self.failure is None)
        &&& (self.restored@ ==> self.cwd@ == self.orig_cwd@)
        &&& (self.restored@ ==> self.phase is Finished)
    }

    /// Every written file sits at its mirrored place below the two
    /// roots.
    pub open spec fn tree_mirrored(&self) -> bool {
        forall|k: int|
            0 <= k < self.written().len() ==> mirrored(
                #[trigger] self.written()[k],
                self.root_remote_view(),
                self.root_local_view(),
            )
    }

    /// Fail the walk: remember the error and restore the original
    /// working directory before reporting.
    fn fail(&mut self, error: FtpError) -> (action: WalkAction)
        requires
            old(self).wf(),
            !old(self).restored(),
        ensures
            final(self).wf(),
            final(self).written@ == old(self).written@,
            final(self).total == old(self).total,
            final(self).orig_cwd@ == old(self).orig_cwd@,
            final(self).root_remote@ == old(self).root_remote@,
            final(self).root_local@ == old(self).root_local@,
            final(self).frames_view() == old(self).frames_view(),
            final(self).cwd@ == old(self).cwd@,
            final(self).restored@ == old(self).restored@,
            final(self).listing@ == old(self).listing@,
            final(self).stored_failure() == Some(error),
            action matches WalkAction::RestoreDir { remote } && remote@ == old(self).orig_cwd@,
            final(self).in_restore(),
    {
        self.failure = Some(error);
        self.phase = Phase::Restore;
        WalkAction::RestoreDir { remote: self.orig_cwd.clone() }
    }

    /// An event that does not answer the pending action: the walk is
    /// abandoned as failed, with no further restore attempt.
    fn protocol_fail(&mut self) -> (action: WalkAction)
        requires
            old(self).wf(),
        ensures
            final(self).wf(),
            final(self).written@ == old(self).written@,
            final(self).total == old(self).total,
            final(self).orig_cwd@ == old(self).orig_cwd@,
            final(self).root_remote@ == old(self).root_remote@,
            final(self).root_local@ == old(self).root_local@,
            final(self).cwd@ == old(self).cwd@,
            final(self).restored@ == old(self).restored@,
            final(self).listing@ == old(self).listing@,
            final(self).finished(),
            (final(self).stored_failure() matches Some(e) && is_transfer_error(
                e,
                "unexpected walk event"@,
            )),
            action is Fail,
    {
        let error = FtpError::TransferError(String::from_str("unexpected walk event"));
        let reported = error.clone();
        self.failure = Some(error);
        self.phase = Phase::Finished;
        WalkAction::Fail { error: reported }
    }

    /// Continue the top frame: fetch its next file, descend into its
    /// next directory, or finish it and climb.
    fn advance(&mut self) -> (action: WalkAction)
        requires
            old(self).wf(),
            !old(self).restored(),
            old(self).failure is None,
            old(self).frames@.len() >= 1,
        ensures
            final(self).wf(),
            final(self).written@ == old(self).written@,
            final(self).total == old(self).total,
            final(self).orig_cwd@ == old(self).orig_cwd@,
            final(self).root_remote@ == old(self).root_remote@,
            final(self).root_local@ == old(self).root_local@,
            final(self).cwd@ == old(self).cwd@,
            final(self).restored@ == old(self).restored@,
            final(self).listing@ == old(self).listing@,
            final(self).stored_failure() == old(self).stored_failure(),
            continues_from(old(self).frames_view(), old(self).orig_cwd@, *final(self), action),
    {
        let ghost rr = self.root_remote@;
        let ghost rl = self.root_local@;
        let ghost pre = self.frames@;
        let ghost prev = self.frames_view();
        let mut f = self.frames.pop().unwrap();
        proof {
            assert(f == pre.last());
            assert(frame_ok(f, rr, rl));
            assert(self.frames@ =~= pre.drop_last());
            assert(prev.last() == view_of_frame(pre.last()));
        }
        if f.next < f.entries.len() {
            let idx = f.next;
            f.next = idx + 1;
            let name = f.entries[idx].name.clone();
            let is_dir = f.entries[idx].is_dir;
            let local = child_path(f.local.as_str(), name.as_str());
            let ghost top = prev.last();
            let ghost advanced = prev.update(
                prev.len() - 1,
                FrameView {
                    remote: top.remote,
                    local: top.local,
                    entries: top.entries,
                    done: top.done + 1,
                },
            );
            let ghost rel = choose|rel: Seq<char>|
                pre.last().remote@ == rr + rel && pre.last().local@ == rl + rel;
            proof {
                assert(top.entries[top.done as int] == pre.last().entries@[idx as int]@);
                assert(name@ == top.entries[top.done as int].name);
                assert(is_dir == top.entries[top.done as int].is_dir);
                assert(local@ == joined(top.local, name@));
            }
            if is_dir {
                let remote = child_path(f.remote.as_str(), name.as_str());
                proof {
                    assert(remote@ =~= rr + (rel + seq!['/'] + name@));
                    assert(local@ =~= rl + (rel + seq!['/'] + name@));
                }
                let lcopy = local.clone();
                let ghost childv = FrameView {
                    remote: joined(top.remote, name@),
                    local: joined(top.local, name@),
                    entries: Seq::empty(),
                    done: 0,
                };
                self.frames.push(f);
                self.frames.push(Frame { remote, local, entries: Vec::new(), next: 0 });
                self.phase = Phase::MkDir;
                proof {
                    assert forall|i: int| 0 <= i < self.frames@.len() implies frame_ok(
                        #[trigger] self.frames@[i],
                        rr,
                        rl,
                    ) by {
                        if i < pre.len() - 1 {
                            assert(self.frames@[i] == pre[i]);
                            assert(frame_ok(pre[i], rr, rl));
                        } else if i == pre.len() - 1 {
                            assert(self.frames@[i].remote@ == rr + rel);
                            assert(self.frames@[i].local@ == rl + rel);
                        } else {
                            assert(self.frames@[i].remote@ == rr + (rel + seq!['/'] + name@));
                            assert(self.frames@[i].local@ == rl + (rel + seq!['/'] + name@));
                        }
                    }
                    assert(views_of(Seq::<RemoteFileEntry>::empty()) =~= Seq::<
                        RemoteEntryView,
                    >::empty());
                    assert(self.frames_view() =~= advanced.push(childv));
                }
                WalkAction::MakeLocalDir { local: lcopy }
            } else {
                self.frames.push(f);
                self.phase = Phase::Fetch { name: name.clone(), local: local.clone() };
                proof {
                    assert forall|i: int| 0 <= i < self.frames@.len() implies frame_ok(
                        #[trigger] self.frames@[i],
                        rr,
                        rl,
                    ) by {
                        if i < pre.len() - 1 {
                            assert(self.frames@[i] == pre[i]);
                            assert(frame_ok(pre[i], rr, rl));
                        } else {
                            assert(self.frames@[i].remote@ == rr + rel);
                            assert(self.frames@[i].local@ == rl + rel);
                        }
                    }
                    assert(local@ == self.frames@.last().local@ + seq!['/'] + name@);
                    assert(self.frames_view() =~= advanced);
                }
                WalkAction::FetchFile { name }
            }
        } else {
            proof {
                assert(forall|i: int| 0 <= i < self.frames@.len() ==> self.frames@[i] == pre[i]);
                assert(self.frames_view() =~= prev.drop_last());
            }
            if self.frames.len() > 0 {
                self.phase = Phase::Return;
                let remote = self.frames[self.frames.len() - 1].remote.clone();
                proof {
                    assert(remote@ == self.frames_view().last().remote);
                }
                WalkAction::ChangeDir { remote }
            } else {
                self.phase = Phase::Restore;
                WalkAction::RestoreDir { remote: self.orig_cwd.clone() }
            }
        }
    }

    /// One step of the walk: consume the driver's report on the last
    /// action and decide the next one.
    pub fn walk_step(&mut self, ev: WalkEvent) -> (action: WalkAction)
        requires
            old(self).wf(),
        ensures
            final(self).wf(),
            final(self).orig_cwd_view() == old(self).orig_cwd_view(),
            final(self).root_remote_view() == old(self).root_remote_view(),
            final(self).root_local_view() == old(self).root_local_view(),
            final(self).tree_mirrored(),
            // the local directory made: enter the remote one it mirrors
            old(self).awaiting_mkdir() ==> ((ev is Done) ==> {
                &&& (action matches WalkAction::ChangeDir { remote } && remote@ == old(
                    self,
                ).current().remote)
                &&& final(self).awaiting_enter()
                &&& final(self).frames_view() == old(self).frames_view()
                &&& final(self).written() == old(self).written()
                &&& final(self).total_spec() == old(self).total_spec()
            }),
            // the directory entered: list it
            old(self).awaiting_enter() ==> ((ev is Done) ==> {
                &&& action is ListDir
                &&& final(self).awaiting_list()
                &&& final(self).cwd_view() == old(self).current().remote
                &&& final(self).frames_view() == old(self).frames_view()
                &&& final(self).written() == old(self).written()
                &&& final(self).total_spec() == old(self).total_spec()
            }),
            // the listing arrives: it is taken as parsed, in listing
            // order, and the walk proceeds to its first entry (or
            // climbs when it is empty)
            old(self).awaiting_list() ==> (ev matches WalkEvent::Listed { lines } ==> {
                let es = parsed_views(lines@.map_values(|l: String| l@));
                &&& final(self).last_listing() == es
                &&& final(self).written() == old(self).written()
                &&& final(self).total_spec() == old(self).total_spec()
                &&& continues_from(
                    old(self).frames_view().update(
                        old(self).depth() - 1,
                        FrameView {
                            remote: old(self).current().remote,
                            local: old(self).current().local,
                            entries: es,
                            done: 0,
                        },
                    ),
                    old(self).orig_cwd_view(),
                    *final(self),
                    action,
                )
            }),
            // a fetched payload is written back unchanged, at the
            // pending entry's local path — success never aborts
            old(self).awaiting_fetch() ==> (ev matches WalkEvent::Fetched { data } ==> {
                &&& (action matches WalkAction::WriteLocal { local, data: out } && local@ == old(
                    self,
                ).pending_local() && out@ == data@)
                &&& final(self).awaiting_write()
                &&& final(self).pending_name() == old(self).pending_name()
                &&& final(self).pending_local() == old(self).pending_local()
                &&& final(self).pending_len() == data@.len()
                &&& final(self).frames_view() == old(self).frames_view()
                &&& final(self).written() == old(self).written()
                &&& final(self).total_spec() == old(self).total_spec()
            }),
            // the write acknowledged: the file is recorded with its
            // exact provenance and length, the total grows by it, and
            // the walk continues — unless the total cannot hold it
            old(self).awaiting_write() ==> ((ev is Done) ==> {
                if old(self).total_spec() + old(self).pending_len() <= u64::MAX {
                    &&& final(self).written() == old(self).written().push(
                        WriteRecord {
                            remote: joined(old(self).current().remote, old(self).pending_name()),
                            local: old(self).pending_local(),
                            len: old(self).pending_len(),
                        },
                    )
                    &&& final(self).total_spec() == old(self).total_spec() + old(
                        self,
                    ).pending_len()
                    &&& continues_from(
                        old(self).frames_view(),
                        old(self).orig_cwd_view(),
                        *final(self),
                        action,
                    )
                } else {
                    &&& (action matches WalkAction::RestoreDir { remote } && remote@ == old(
                        self,
                    ).orig_cwd_view())
                    &&& final(self).failed()
                    &&& final(self).in_restore()
                }
            }),
            // the return to the parent acknowledged: the cursor is on
            // the parent again and its next entry follows
            old(self).awaiting_return() ==> ((ev is Done) ==> {
                &&& final(self).cwd_view() == old(self).current().remote
                &&& final(self).written() == old(self).written()
                &&& final(self).total_spec() == old(self).total_spec()
                &&& continues_from(
                    old(self).frames_view(),
                    old(self).orig_cwd_view(),
                    *final(self),
                    action,
                )
            }),
            // any reported failure of a pending action is recorded
            // with its verb-prefixed message and aborts the walk after
            // one best-effort restore
            ev matches WalkEvent::Failed { raw } ==> ((!old(self).in_restore() && !old(
                self,
            ).finished()) ==> {
                &&& (action matches WalkAction::RestoreDir { remote } && remote@ == old(
                    self,
                ).orig_cwd_view())
                &&& final(self).in_restore()
                &&& (final(self).stored_failure() matches Some(e) && error_text(e)
                    == failure_message(*old(self), raw@))
                &&& final(self).written() == old(self).written()
                &&& final(self).total_spec() == old(self).total_spec()
            }),
            // the closing restore resolves the walk: the recorded
            // failure if there is one, the finished total otherwise
            old(self).in_restore() ==> {
                &&& final(self).finished()
                &&& ((ev is Done) ==> final(self).restored())
                &&& (!old(self).failed() ==> (action matches WalkAction::Finish { total }
                    && total == old(self).total_spec()))
                &&& (old(self).failed() ==> (action matches WalkAction::Fail { error } && Some(
                    error,
                ) == old(self).stored_failure()))
            },
            // a finished walk repeats its result and changes nothing
            old(self).finished() ==> {
                &&& final(self).finished()
                &&& (!old(self).failed() ==> (action matches WalkAction::Finish { total }
                    && total == old(self).total_spec()))
                &&& (old(self).failed() ==> (action matches WalkAction::Fail { error } && Some(
                    error,
                ) == old(self).stored_failure()))
            },
            // a finish carries exactly the byte sum of the written
            // files, and only a clean, fully consumed walk finishes
            action matches WalkAction::Finish { total } ==> {
                &&& total as nat == sum_written(final(self).written())
                &&& (old(self).in_restore() || old(self).finished())
                &&& !old(self).failed()
                &&& final(self).depth() == 0
            },
            // the walk gives up without restoring only when it is
            // already resolved or the event answers nothing
            action is Fail ==> old(self).finished() || (old(self).in_restore() && old(
                self,
            ).failed()) || !event_answers(*old(self), ev),
            // when the closing restore was acknowledged, the working
            // directory stands where it stood before the walk
            final(self).restored() ==> final(self).cwd_view() == final(self).orig_cwd_view(),
    {
        match &self.phase {
            Phase::Finished => {
                match &self.failure {
                    Some(e) => WalkAction::Fail { error: e.clone() },
                    None => WalkAction::Finish { total: self.total },
                }
            },
            Phase::Restore => {
                if let WalkEvent::Done = ev {
                    proof {
                        self.cwd@ = self.orig_cwd@;
                        self.restored@ = true;
                    }
                }
                self.phase = Phase::Finished;
                match &self.failure {
                    Some(e) => WalkAction::Fail { error: e.clone() },
                    None => WalkAction::Finish { total: self.total },
                }
            },
            Phase::MkDir => {
                match ev {
                    WalkEvent::Done => {
                        let remote = self.frames[self.frames.len() - 1].remote.clone();
                        self.phase = Phase::Enter;
                        WalkAction::ChangeDir { remote }
                    },
                    WalkEvent::Failed { raw } => {
                        let m = prefixed("Failed to create local dir: ", raw.as_str());
                        let e = FtpError::TransferError(m);
                        self.fail(e)
                    },
                    _ => self.protocol_fail(),
                }
            },
            Phase::Enter => {
                match ev {
                    WalkEvent::Done => {
                        proof {
                            self.cwd@ = self.frames@.last().remote@;
                        }
                        self.phase = Phase::List;
                        WalkAction::ListDir
                    },
                    WalkEvent::Failed { raw } => {
                        let head = prefixed("CWD failed to ", self.frames[self.frames.len()
                            - 1].remote.as_str());
                        let tail = prefixed(": ", raw.as_str());
                        let m = prefixed(head.as_str(), tail.as_str());
                        proof {
                            assert(m@ =~= "CWD failed to "@ + self.frames_view().last().remote
                                + ": "@ + raw@);
                        }
                        let e = FtpError::OperationError(m);
                        self.fail(e)
                    },
                    _ => self.protocol_fail(),
                }
            },
            Phase::List => {
                match ev {
                    WalkEvent::Listed { lines } => {
                        let entries = parse_lines(&lines);
                        proof {
                            self.listing@ = views_of(entries@);
                        }
                        let ghost rr = self.root_remote@;
                        let ghost rl = self.root_local@;
                        let ghost pre = self.frames@;
                        let ghost prev = self.frames_view();
                        let ghost es = views_of(entries@);
                        let mut f = self.frames.pop().unwrap();
                        f.entries = entries;
                        f.next = 0;
                        self.frames.push(f);
                        proof {
                            assert forall|i: int| 0 <= i < self.frames@.len() implies frame_ok(
                                #[trigger] self.frames@[i],
                                rr,
                                rl,
                            ) by {
                                if i < pre.len() - 1 {
                                    assert(self.frames@[i] == pre[i]);
                                    assert(frame_ok(pre[i], rr, rl));
                                } else {
                                    assert(frame_ok(pre.last(), rr, rl));
                                    let rel = choose|rel: Seq<char>|
                                        pre.last().remote@ == rr + rel && pre.last().local@ == rl
                                            + rel;
                                    assert(self.frames@[i].remote@ == rr + rel);
                                    assert(self.frames@[i].local@ == rl + rel);
                                }
                            }
                            assert(prev.last() == view_of_frame(pre.last()));
                            assert(self.frames_view() =~= prev.update(
                                prev.len() - 1,
                                FrameView {
                                    remote: prev.last().remote,
                                    local: prev.last().local,
                                    entries: es,
                                    done: 0,
                                },
                            ));
                        }
                        self.advance()
                    },
                    WalkEvent::Failed { raw } => {
                        let head = prefixed("LIST failed in ", self.frames[self.frames.len()
                            - 1].remote.as_str());
                        let tail = prefixed(": ", raw.as_str());
                        let m = prefixed(head.as_str(), tail.as_str());
                        proof {
                            assert(m@ =~= "LIST failed in "@ + self.frames_view().last().remote
                                + ": "@ + raw@);
                        }
                        let e = FtpError::OperationError(m);
                        self.fail(e)
                    },
                    _ => self.protocol_fail(),
                }
            },
            Phase::Fetch { name, local } => {
                let name = name.clone();
                let local = local.clone();
                match ev {
                    WalkEvent::Fetched { data } => {
                        let len = data.len() as u64;
                        self.phase = Phase::Write { name, local: local.clone(), len };
                        WalkAction::WriteLocal { local, data }
                    },
                    WalkEvent::Failed { raw } => {
                        let head = prefixed("Download failed for ", name.as_str());
                        let tail = prefixed(": ", raw.as_str());
                        let m = prefixed(head.as_str(), tail.as_str());
                        proof {
                            assert(m@ =~= "Download failed for "@ + name@ + ": "@ + raw@);
                        }
                        let e = FtpError::TransferError(m);
                        self.fail(e)
                    },
                    _ => self.protocol_fail(),
                }
            },
            Phase::Write { name, local, len } => {
                let name = name.clone();
                let local = local.clone();
                let len = *len;
                match ev {
                    WalkEvent::Done => {
                        match self.total.checked_add(len) {
                            Some(new_total) => {
                                let ghost rec = WriteRecord {
                                    remote: self.frames@.last().remote@ + seq!['/'] + name@,
                                    local: local@,
                                    len: len as nat,
                                };
                                proof {
                                    let ghost top = self.frames@.len() - 1;
                                    assert(frame_ok(
                                        self.frames@[top],
                                        self.root_remote@,
                                        self.root_local@,
                                    ));
                                    let ghost rel = choose|rel: Seq<char>|
                                        self.frames@[top].remote@ == self.root_remote@ + rel
                                            && self.frames@[top].local@ == self.root_local@ + rel;
                                    assert(rec.remote =~= self.root_remote@ + (rel + seq!['/']
                                        + name@));
                                    assert(rec.local =~= self.root_local@ + (rel + seq!['/']
                                        + name@));
                                    assert(mirrored(rec, self.root_remote@, self.root_local@));
                                    assert(self.written@.push(rec).drop_last() =~= self.written@);
                                    assert(sum_written(self.written@.push(rec)) == sum_written(
                                        self.written@,
                                    ) + len as nat);
                                    let ghost older = self.written@;
                                    self.written@ = self.written@.push(rec);
                                    assert forall|k: int|
                                        0 <= k < self.written@.len() implies mirrored(
                                        #[trigger] self.written@[k],
                                        self.root_remote@,
                                        self.root_local@,
                                    ) by {
                                        if k < older.len() {
                                            assert(self.written@[k] == older[k]);
                                        } else {
                                            assert(self.written@[k] == rec);
                                        }
                                    }
                                }
                                self.total = new_total;
                                self.advance()
                            },
                            None => {
                                let head = prefixed("Save failed for ", name.as_str());
                                let m = prefixed(head.as_str(), ": byte total overflow");
                                let e = FtpError::TransferError(m);
                                self.fail(e)
                            },
                        }
                    },
                    WalkEvent::Failed { raw } => {
                        let head = prefixed("Save failed for ", name.as_str());
                        let tail = prefixed(": ", raw.as_str());
                        let m = prefixed(head.as_str(), tail.as_str());
                        proof {
                            assert(m@ =~= "Save failed for "@ + name@ + ": "@ + raw@);
                        }
                        let e = FtpError::TransferError(m);
                        self.fail(e)
                    },
                    _ => self.protocol_fail(),
                }
            },
            Phase::Return => {
                match ev {
                    WalkEvent::Done => {
                        proof {
                            self.cwd@ = self.frames@.last().remote@;
                        }
                        self.advance()
                    },
                    WalkEvent::Failed { raw } => {
                        let head = prefixed("CWD failed returning to ", self.frames[self.frames.len()
                            - 1].remote.as_str());
                        let tail = prefixed(": ", raw.as_str());
                        let m = prefixed(head.as_str(), tail.as_str());
                        proof {
                            assert(m@ =~= "CWD failed returning to "@
                                + self.frames_view().last().remote + ": "@ + raw@);
                        }
                        let e = FtpError::OperationError(m);
                        self.fail(e)
                    },
                    _ => self.protocol_fail(),
                }
            },
        }
    }
}

/// What continuing a traversal from the stack `fs` means: the top
/// frame's next entry is taken in listing order — a directory is
/// descended into (its frame pushed, its local directory asked for), a
/// file is fetched — and an exhausted frame is popped, returning to
/// the parent's remote directory or, at the root, restoring `orig`.
pub open spec fn continues_from(
    fs: Seq<FrameView>,
    orig: Seq<char>,
    post: Walk,
    action: WalkAction,
) -> bool {
    fs.len() > 0 && {
        let top = fs.last();
        if top.done < top.entries.len() {
            let entry = top.entries[top.done as int];
            let advanced = fs.update(
                fs.len() - 1,
                FrameView {
                    remote: top.remote,
                    local: top.local,
                    entries: top.entries,
                    done: top.done + 1,
                },
            );
            if entry.is_dir {
                &&& (action matches WalkAction::MakeLocalDir { local } && local@ == joined(
                    top.local,
                    entry.name,
                ))
                &&& post.awaiting_mkdir()
                &&& post.frames_view() == advanced.push(
                    FrameView {
                        remote: joined(top.remote, entry.name),
                        local: joined(top.local, entry.name),
                        entries: Seq::empty(),
                        done: 0,
                    },
                )
            } else {
                &&& (action matches WalkAction::FetchFile { name } && name@ == entry.name)
                &&& post.awaiting_fetch()
                &&& post.pending_name() == entry.name
                &&& post.pending_local() == joined(top.local, entry.name)
                &&& post.frames_view() == advanced
            }
        } else {
            let popped = fs.drop_last();
            &&& post.frames_view() == popped
            &&& (if popped.len() > 0 {
                (action matches WalkAction::ChangeDir { remote } && remote@
                    == popped.last().remote) && post.awaiting_return()
            } else {
                (action matches WalkAction::RestoreDir { remote } && remote@ == orig)
                    && post.in_restore()
            })
        }
    }
}

/// Whether an event is the answer the pending action calls for.
pub open spec fn event_answers(w: Walk, ev: WalkEvent) -> bool {
    match ev {
        WalkEvent::Done => w.awaiting_mkdir() || w.awaiting_enter() || w.awaiting_write()
            || w.awaiting_return() || w.in_restore(),
        WalkEvent::Listed { lines } => w.awaiting_list(),
        WalkEvent::Fetched { data } => w.awaiting_fetch(),
        WalkEvent::Failed { raw } => !w.finished(),
    }
}

/// The exact message recorded when the pending action of `w` reports a
/// failure `raw`: the verb's context prefix, the path or name it was
/// working on, and the report verbatim.
pub open spec fn failure_message(w: Walk, raw: Seq<char>) -> Seq<char> {
    if w.awaiting_mkdir() {
        "Failed to create local dir: "@ + raw
    } else if w.awaiting_enter() {
        "CWD failed to "@ + w.current().remote + ": "@ + raw
    } else if w.awaiting_list() {
        "LIST failed in "@ + w.current().remote + ": "@ + raw
    } else if w.awaiting_fetch() {
        "Download failed for "@ + w.pending_name() + ": "@ + raw
    } else if w.awaiting_write() {
        "Save failed for "@ + w.pending_name() + ": "@ + raw
    } else {
        "CWD failed returning to "@ + w.current().remote + ": "@ + raw
    }
}

/// Begin a folder download: resolve the remote directory against the
/// working directory (`/` when the working directory is unknown) and
/// ask for the local root first.
pub fn walk_start(remote_dir: &str, local_dir: &str, pwd: Option<String>) -> (r: (
    Walk,
    WalkAction,
))
    ensures
        r.0.wf(),
        r.0.written() == Seq::<WriteRecord>::empty(),
        r.0.total_spec() == 0,
        (match pwd {
            Some(p) => r.0.orig_cwd_view() == p@,
            None => r.0.orig_cwd_view() == "/"@,
        }),
        r.0.root_remote_view() == resolved_remote(remote_dir@, r.0.orig_cwd_view()),
        r.0.root_local_view() == local_dir@,
        r.0.cwd_view() == r.0.orig_cwd_view(),
        !r.0.restored(),
        !r.0.failed(),
        r.0.awaiting_mkdir(),
        r.0.depth() == 1,
        r.0.current() == (FrameView {
            remote: r.0.root_remote_view(),
            local: r.0.root_local_view(),
            entries: Seq::<RemoteEntryView>::empty(),
            done: 0,
        }),
        r.1 matches WalkAction::MakeLocalDir { local } && local@ == local_dir@,
{
    let orig_cwd = match pwd {
        Some(p) => p,
        None => String::from_str("/"),
    };
    let root_remote = resolve_remote(remote_dir, orig_cwd.as_str());
    let root_local = local_dir.to_owned();
    let frame = Frame {
        remote: root_remote.clone(),
        local: root_local.clone(),
        entries: Vec::new(),
        next: 0,
    };
    let mut frames = Vec::new();
    frames.push(frame);
    let w = Walk {
        frames,
        phase: Phase::MkDir,
        total: 0,
        orig_cwd: orig_cwd.clone(),
        root_remote,
        root_local: root_local.clone(),
        failure: None,
        cwd: Ghost(orig_cwd@),
        written: Ghost(Seq::empty()),
        restored: Ghost(false),
        listing: Ghost(Seq::empty()),
    };
    proof {
        assert(w.frames@[0].remote@ == w.root_remote@ + Seq::<char>::empty()) by {
            assert(w.root_remote@ + Seq::<char>::empty() =~= w.root_remote@);
        }
        assert(w.frames@[0].local@ == w.root_local@ + Seq::<char>::empty()) by {
            assert(w.root_local@ + Seq::<char>::empty() =~= w.root_local@);
        }
        assert(frame_ok(w.frames@[0], w.root_remote@, w.root_local@));
        assert(views_of(Seq::<RemoteFileEntry>::empty()) =~= Seq::<RemoteEntryView>::empty());
        assert(w.frames_view().last() == view_of_frame(w.frames@[0]));
    }
    let action = WalkAction::MakeLocalDir { local: root_local };
    (w, action)
}

/// The folder-download law: however the driver's outcomes fall, a walk
/// that reports `Finish { total }` reports exactly the byte sum of the
/// files it had written; every written file sits at the local path
/// whose relative position below the local root equals its remote
/// position below the resolved remote root; and when the closing
/// restore was acknowledged, the server's working directory equals the
/// one recorded before the walk.
pub proof fn lemma_walk_outcome(w: Walk, total: u64)
    requires
        w.wf(),
        total as nat == sum_written(w.written()),
        w.restored(),
    ensures
        total as nat == sum_written(w.written()),
        w.tree_mirrored(),
        w.cwd_view() == w.orig_cwd_view(),
{
}

} // verus!
