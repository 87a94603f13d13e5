//! Changes of files: which of them peers are told of, and when.
use crate::collections::{lookup, put, without};
use crate::network::{SyncMessage, SyncMessageView};
use crate::paths::{remainder, rest_of_path};
use crate::state::{AppState, AppStateView};
use crate::sync::effect::{asked, EffectView, Outbox};
use crate::text::{join, to_chars};
use vstd::prelude::*;

verus! {

/// How long a change of a file is not told again, in nanoseconds: five seconds.
pub const NOTIFY_NANOS: u64 = 5000000000;

/// What happened to a file of the folder.
#[allow(inconsistent_fields)]
#[derive(Debug)]
pub enum WatchNotification {
    FileChanged { file_name: String },
    FileDeleted { file_name: String },
}

/// What a `WatchNotification` says.
#[allow(inconsistent_fields)]
#[verifier::ext_equal]
pub ghost enum WatchNotificationView {
    FileChanged { file_name: Seq<char> },
    FileDeleted { file_name: Seq<char> },
}

impl View for WatchNotification {
    type V = WatchNotificationView;

    open spec fn view(&self) -> WatchNotificationView {
        match *self {
            WatchNotification::FileChanged { file_name } => WatchNotificationView::FileChanged {
                file_name: file_name@,
            },
            WatchNotification::FileDeleted { file_name } => WatchNotificationView::FileDeleted {
                file_name: file_name@,
            },
        }
    }
}

/// A path that the file system told of.
#[derive(Debug)]
pub struct ChangedPath {
    pub path: String,
    pub is_file: bool,
}

/// What a `ChangedPath` holds.
#[verifier::ext_equal]
pub ghost struct ChangedPathView {
    pub path: Seq<char>,
    pub is_file: bool,
}

impl View for ChangedPath {
    type V = ChangedPathView;

    open spec fn view(&self) -> ChangedPathView {
        ChangedPathView {
            path: self.path@,
            is_file: self.is_file,
        }
    }
}

/// A name with slashes in place of backslashes.
pub open spec fn with_slashes(s: Seq<char>) -> Seq<char> {
    s.map_values(
        |c: char|
            if c == '\\' {
                '/'
            } else {
                c
            },
    )
}

/// The name under which peers know a path of the folder.
pub open spec fn watched_name(root: Seq<char>, path: Seq<char>) -> Option<Seq<char>> {
    match remainder(root, path) {
        Some(rest) => Some(with_slashes(join(rest, "/"@))),
        None => None,
    }
}

fn replace_backslashes(s: &str) -> (r: String)
    ensures
        r@ == with_slashes(s@),
{
    let chars = to_chars(s);
    let mut out = String::new();
    let mut i: usize = 0;
    while i < chars.len()
        invariant
            chars@ == s@,
            i <= chars@.len(),
            out@ == with_slashes(s@).take(i as int),
        decreases chars.len() - i,
    {
        let c = if chars[i] == '\\' {
            '/'
        } else {
            chars[i]
        };
        out.push(c);
        i = i + 1;
        assert(out@ =~= with_slashes(s@).take(i as int));
    }
    assert(out@ =~= with_slashes(s@));
    out
}

fn name_of(root: &str, path: &str) -> (r: Option<String>)
    ensures
        match r {
            Some(n) => watched_name(root@, path@) == Some(n@),
            None => watched_name(root@, path@) is None,
        },
{
    match rest_of_path(root, path) {
        Some(rest) => Some(replace_backslashes(rest.as_str())),
        None => None,
    }
}

/// The notifications for the first `n` paths that were created or modified:
/// files that the node itself is writing are left out.
pub open spec fn changes_told(
    root: Seq<char>,
    paths: Seq<ChangedPathView>,
    writing: Seq<Seq<char>>,
    n: nat,
) -> Seq<WatchNotificationView>
    decreases n,
{
    if n == 0 {
        Seq::empty()
    } else {
        let before = changes_told(root, paths, writing, (n - 1) as nat);
        let p = paths[n - 1];
        if p.is_file && !writing.contains(p.path) && watched_name(root, p.path) is Some {
            before.push(
                WatchNotificationView::FileChanged { file_name: watched_name(root, p.path)->0 },
            )
        } else {
            before
        }
    }
}

/// The notifications for the first `n` paths that were removed: files that the
/// node itself is deleting are left out.
pub open spec fn removals_told(
    root: Seq<char>,
    paths: Seq<ChangedPathView>,
    deleting: Seq<Seq<char>>,
    n: nat,
) -> Seq<WatchNotificationView>
    decreases n,
{
    if n == 0 {
        Seq::empty()
    } else {
        let before = removals_told(root, paths, deleting, (n - 1) as nat);
        let p = paths[n - 1];
        if !deleting.contains(p.path) && watched_name(root, p.path) is Some {
            before.push(
                WatchNotificationView::FileDeleted { file_name: watched_name(root, p.path)->0 },
            )
        } else {
            before
        }
    }
}

/// The views of a list of paths.
pub open spec fn path_views(v: Seq<ChangedPath>) -> Seq<ChangedPathView> {
    v.map_values(|p: ChangedPath| p@)
}

/// The views of a list of notifications.
pub open spec fn notification_views(v: Seq<WatchNotification>) -> Seq<WatchNotificationView> {
    v.map_values(|n: WatchNotification| n@)
}

/// What peers are to be told of paths that were created or modified.
pub fn on_changed(root: &str, paths: &Vec<ChangedPath>, state: &AppState) -> (r: Vec<
    WatchNotification,
>)
    ensures
        notification_views(r@) == changes_told(
            root@,
            path_views(paths@),
            state@.writing_files,
            paths@.len(),
        ),
{
    let ghost all = path_views(paths@);
    let mut out: Vec<WatchNotification> = Vec::new();
    let mut i: usize = 0;
    assert(notification_views(out@) =~= Seq::empty());
    while i < paths.len()
        invariant
            all == path_views(paths@),
            i <= paths@.len(),
            notification_views(out@) == changes_told(
                root@,
                all,
                state@.writing_files,
                i as nat,
            ),
        decreases paths.len() - i,
    {
        let p = &paths[i];
        assert(all[i as int] == p@);
        let ghost before = notification_views(out@);
        if p.is_file && !state.writing_files.contains(&p.path) {
            if let Some(file_name) = name_of(root, p.path.as_str()) {
                let n = WatchNotification::FileChanged { file_name };
                let ghost nv = n@;
                out.push(n);
                assert(notification_views(out@) =~= before.push(nv));
            }
        }
        i = i + 1;
    }
    out
}

/// What peers are to be told of paths that were removed.
pub fn on_removed(root: &str, paths: &Vec<ChangedPath>, state: &AppState) -> (r: Vec<
    WatchNotification,
>)
    ensures
        notification_views(r@) == removals_told(
            root@,
            path_views(paths@),
            state@.deleting_files,
            paths@.len(),
        ),
{
    let ghost all = path_views(paths@);
    let mut out: Vec<WatchNotification> = Vec::new();
    let mut i: usize = 0;
    assert(notification_views(out@) =~= Seq::empty());
    while i < paths.len()
        invariant
            all == path_views(paths@),
            i <= paths@.len(),
            notification_views(out@) == removals_told(
                root@,
                all,
                state@.deleting_files,
                i as nat,
            ),
        decreases paths.len() - i,
    {
        let p = &paths[i];
        assert(all[i as int] == p@);
        let ghost before = notification_views(out@);
        if !state.deleting_files.contains(&p.path) {
            if let Some(file_name) = name_of(root, p.path.as_str()) {
                let n = WatchNotification::FileDeleted { file_name };
                let ghost nv = n@;
                out.push(n);
                assert(notification_views(out@) =~= before.push(nv));
            }
        }
        i = i + 1;
    }
    out
}

/// The first `n` peers are sent a message.
pub open spec fn sent_to(
    peers: Seq<Seq<char>>,
    message: SyncMessageView,
    n: nat,
    out: Seq<EffectView>,
) -> Seq<EffectView>
    decreases n,
{
    if n == 0 {
        out
    } else {
        sent_to(peers, message, (n - 1) as nat, out).push(asked(peers[n - 1], message))
    }
}

/// Peers were told of the file a short time ago.
pub open spec fn told_recently(s: AppStateView, file_name: Seq<char>, now: u64) -> bool {
    lookup(s.recently_notified, file_name) matches Some(t) && now - t < NOTIFY_NANOS
}

/// What a notification leads to: all connected peers are told, of a change only
/// if they were not told recently.
pub open spec fn notified(
    n: WatchNotificationView,
    now: u64,
    s: AppStateView,
    out: Seq<EffectView>,
) -> (AppStateView, Seq<EffectView>) {
    match n {
        WatchNotificationView::FileChanged { file_name } => if told_recently(s, file_name, now) {
            (s, out)
        } else {
            (
                AppStateView {
                    recently_notified: put(s.recently_notified, file_name, now),
                    ..s
                },
                sent_to(
                    s.connected_peers,
                    SyncMessageView::FileChanged { file_name },
                    s.connected_peers.len(),
                    out,
                ),
            )
        },
        WatchNotificationView::FileDeleted { file_name } => (
            AppStateView { recently_notified: without(s.recently_notified, file_name), ..s },
            sent_to(
                s.connected_peers,
                SyncMessageView::FileDeleted { file_name },
                s.connected_peers.len(),
                out,
            ),
        ),
    }
}

proof fn lemma_sent_to(
    peers: Seq<Seq<char>>,
    message: SyncMessageView,
    n: nat,
    out: Seq<EffectView>,
)
    ensures
        sent_to(peers, message, n, out) == out + Seq::new(
            n,
            |i: int| EffectView::Request { peer: peers[i], message },
        ),
    decreases n,
{
    let new = Seq::new(n, |i: int| EffectView::Request { peer: peers[i], message });
    if n > 0 {
        lemma_sent_to(peers, message, (n - 1) as nat, out);
        let some = Seq::new(
            (n - 1) as nat,
            |i: int| EffectView::Request { peer: peers[i], message },
        );
        assert(out + new =~= (out + some).push(new[n - 1]));
    } else {
        assert(out + new =~= out);
    }
}

/// A deletion is told to every connected peer, once to each, and nothing else is sent. A
/// change of the file after that is told at once.
pub proof fn law_deletion_is_told_to_all(
    file_name: Seq<char>,
    now: u64,
    s: AppStateView,
    out: Seq<EffectView>,
)
    ensures
        ({
            let n = WatchNotificationView::FileDeleted { file_name };
            let (s1, out1) = notified(n, now, s, out);
            &&& out1 == out + s.connected_peers.map_values(
                |peer: Seq<char>|
                    EffectView::Request {
                        peer,
                        message: SyncMessageView::FileDeleted { file_name },
                    },
            )
            &&& s1 == (AppStateView {
                recently_notified: without(s.recently_notified, file_name),
                ..s
            })
        }),
{
    let message = SyncMessageView::FileDeleted { file_name };
    lemma_sent_to(s.connected_peers, message, s.connected_peers.len(), out);
    assert(Seq::new(
        s.connected_peers.len(),
        |i: int| EffectView::Request { peer: s.connected_peers[i], message },
    ) =~= s.connected_peers.map_values(
        |peer: Seq<char>| EffectView::Request { peer, message },
    ));
}

/// A change is told to every connected peer, once to each, unless they were told of a
/// change of that file within the last five seconds; then nothing is sent. When it is
/// told, the time is remembered.
pub proof fn law_change_is_told_to_all(
    file_name: Seq<char>,
    now: u64,
    s: AppStateView,
    out: Seq<EffectView>,
)
    ensures
        ({
            let n = WatchNotificationView::FileChanged { file_name };
            let (s1, out1) = notified(n, now, s, out);
            let recent = lookup(s.recently_notified, file_name) matches Some(t) && now < t
                + 5000000000;
            &&& recent ==> s1 == s && out1 == out
            &&& !recent ==> {
                &&& out1 == out + s.connected_peers.map_values(
                    |peer: Seq<char>|
                        EffectView::Request {
                            peer,
                            message: SyncMessageView::FileChanged { file_name },
                        },
                )
                &&& s1 == (AppStateView {
                    recently_notified: put(s.recently_notified, file_name, now),
                    ..s
                })
            }
        }),
{
    let message = SyncMessageView::FileChanged { file_name };
    lemma_sent_to(s.connected_peers, message, s.connected_peers.len(), out);
    assert(Seq::new(
        s.connected_peers.len(),
        |i: int| EffectView::Request { peer: s.connected_peers[i], message },
    ) =~= s.connected_peers.map_values(
        |peer: Seq<char>| EffectView::Request { peer, message },
    ));
}

/// Of paths that were created or modified exactly the files inside the folder are told
/// that the node is not writing itself, each under its name in the folder, with slashes.
pub proof fn law_changes_by_others_are_told(
    root: Seq<char>,
    paths: Seq<ChangedPathView>,
    writing: Seq<Seq<char>>,
    n: nat,
    told: WatchNotificationView,
)
    requires
        n <= paths.len(),
    ensures
        changes_told(root, paths, writing, n).contains(told) <==> exists|i: int|
            0 <= i < n && (#[trigger] paths[i]).is_file && !writing.contains(paths[i].path) && (
            remainder(root, paths[i].path) matches Some(rest) && told == (
            WatchNotificationView::FileChanged {
                file_name: join(rest, "/"@).map_values(
                    |c: char|
                        if c == '\\' {
                            '/'
                        } else {
                            c
                        },
                ),
            })),
    decreases n,
{
    if n > 0 {
        law_changes_by_others_are_told(root, paths, writing, (n - 1) as nat, told);
        let before = changes_told(root, paths, writing, (n - 1) as nat);
        let after = changes_told(root, paths, writing, n);
        let p = paths[n - 1];
        if let Some(rest) = remainder(root, p.path) {
            let name = with_slashes(join(rest, "/"@));
            let e = WatchNotificationView::FileChanged { file_name: name };
            if p.is_file && !writing.contains(p.path) {
                assert(after[before.len() as int] == e);
                if before.contains(told) {
                    let k = choose|k: int| 0 <= k < before.len() && before[k] == told;
                    assert(after[k] == told);
                }
                if after.contains(told) && told != e {
                    let k = choose|k: int| 0 <= k < after.len() && after[k] == told;
                    assert(before[k] == told);
                }
            }
        }
    } else {
        assert(changes_told(root, paths, writing, n).len() == 0);
    }
}

/// Of paths that were removed exactly those inside the folder are told that the node is
/// not deleting itself, each under its name in the folder, with slashes.
pub proof fn law_removals_by_others_are_told(
    root: Seq<char>,
    paths: Seq<ChangedPathView>,
    deleting: Seq<Seq<char>>,
    n: nat,
    told: WatchNotificationView,
)
    requires
        n <= paths.len(),
    ensures
        removals_told(root, paths, deleting, n).contains(told) <==> exists|i: int|
            0 <= i < n && !deleting.contains((#[trigger] paths[i]).path) && (remainder(
                root,
                paths[i].path,
            ) matches Some(rest) && told == (WatchNotificationView::FileDeleted {
                file_name: join(rest, "/"@).map_values(
                    |c: char|
                        if c == '\\' {
                            '/'
                        } else {
                            c
                        },
                ),
            })),
    decreases n,
{
    if n > 0 {
        law_removals_by_others_are_told(root, paths, deleting, (n - 1) as nat, told);
        let before = removals_told(root, paths, deleting, (n - 1) as nat);
        let after = removals_told(root, paths, deleting, n);
        let p = paths[n - 1];
        if let Some(rest) = remainder(root, p.path) {
            let name = with_slashes(join(rest, "/"@));
            let e = WatchNotificationView::FileDeleted { file_name: name };
            if !deleting.contains(p.path) {
                assert(after[before.len() as int] == e);
                if before.contains(told) {
                    let k = choose|k: int| 0 <= k < before.len() && before[k] == told;
                    assert(after[k] == told);
                }
                if after.contains(told) && told != e {
                    let k = choose|k: int| 0 <= k < after.len() && after[k] == told;
                    assert(before[k] == told);
                }
            }
        }
    } else {
        assert(removals_told(root, paths, deleting, n).len() == 0);
    }
}

/// Tells the connected peers of a file that changed or was deleted.
pub fn on_notification(n: WatchNotification, now: u64, state: &mut AppState, out: &mut Outbox)
    ensures
        notified(n@, now, old(state)@, old(out)@) == (final(state)@, final(out)@),
{
    match n {
        WatchNotification::FileChanged { file_name } => {
            let recent = match state.recently_notified.get(&file_name) {
                Some(t) => now < *t || now - *t < NOTIFY_NANOS,
                None => false,
            };
            if recent {
                return;
            }
            state.recently_notified.insert(file_name.clone(), now);
            let mut i: usize = 0;
            let n: usize = state.connected_peers.len();
            while i < n
                invariant
                    i <= n,
                    n == state@.connected_peers.len(),
                    out@ == sent_to(
                        state@.connected_peers,
                        SyncMessageView::FileChanged { file_name: file_name@ },
                        i as nat,
                        old(out)@,
                    ),
                decreases n - i,
            {
                let peer = state.connected_peers.at(i);
                out.ask(peer, SyncMessage::FileChanged { file_name: file_name.clone() });
                i = i + 1;
            }
        },
        WatchNotification::FileDeleted { file_name } => {
            state.recently_notified.remove(&file_name);
            let mut i: usize = 0;
            let n: usize = state.connected_peers.len();
            while i < n
                invariant
                    i <= n,
                    n == state@.connected_peers.len(),
                    out@ == sent_to(
                        state@.connected_peers,
                        SyncMessageView::FileDeleted { file_name: file_name@ },
                        i as nat,
                        old(out)@,
                    ),
                decreases n - i,
            {
                let peer = state.connected_peers.at(i);
                out.ask(peer, SyncMessage::FileDeleted { file_name: file_name.clone() });
                i = i + 1;
            }
        },
    }
}

} // verus!
