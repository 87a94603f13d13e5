//! A session: the files of a peer, a few at a time.
use crate::collections::{
    law_without_element, lemma_place_of, with_element, without_element, KeySet,
};
use crate::text::{owned, texts};
use vstd::prelude::*;

verus! {

/// The files of a peer that are synced in one go.
pub struct SyncSession {
    pub pending_files: Vec<String>,
    pub active_transfers: KeySet<String>,
    pub completed_files: KeySet<String>,
    pub max_concurrent: usize,
}

/// What a `SyncSession` holds.
#[verifier::ext_equal]
pub ghost struct SyncSessionView {
    pub pending_files: Seq<Seq<char>>,
    pub active_transfers: Seq<Seq<char>>,
    pub completed_files: Seq<Seq<char>>,
    pub max_concurrent: usize,
}

impl View for SyncSession {
    type V = SyncSessionView;

    open spec fn view(&self) -> SyncSessionView {
        SyncSessionView {
            pending_files: texts(self.pending_files@),
            active_transfers: self.active_transfers@,
            completed_files: self.completed_files@,
            max_concurrent: self.max_concurrent,
        }
    }
}

/// A session that has not begun.
pub open spec fn new_session(files: Seq<Seq<char>>, max: usize) -> SyncSessionView {
    SyncSessionView {
        pending_files: files,
        active_transfers: Seq::empty(),
        completed_files: Seq::empty(),
        max_concurrent: max,
    }
}

/// Another file may start.
pub open spec fn startable(s: SyncSessionView) -> bool {
    s.active_transfers.len() < s.max_concurrent && s.pending_files.len() > 0
}

/// The session after its last pending file started.
pub open spec fn started(s: SyncSessionView) -> SyncSessionView {
    SyncSessionView {
        pending_files: s.pending_files.drop_last(),
        active_transfers: with_element(s.active_transfers, s.pending_files.last()),
        ..s
    }
}

/// The session after a file was completed.
pub open spec fn completed(s: SyncSessionView, file_name: Seq<char>) -> SyncSessionView {
    SyncSessionView {
        active_transfers: without_element(s.active_transfers, file_name),
        completed_files: with_element(s.completed_files, file_name),
        ..s
    }
}

/// Nothing is pending and nothing active.
pub open spec fn finished(s: SyncSessionView) -> bool {
    s.pending_files.len() == 0 && s.active_transfers.len() == 0
}

/// No more files are active than allowed.
pub open spec fn session_ok(s: SyncSessionView) -> bool {
    s.active_transfers.len() <= s.max_concurrent && s.active_transfers.no_duplicates()
}

/// A session never has more files active than allowed: not when it begins, not
/// after a file started, and not after one was completed.
pub proof fn law_session_stays_bounded(
    files: Seq<Seq<char>>,
    max: usize,
    s: SyncSessionView,
    file_name: Seq<char>,
)
    requires
        session_ok(s),
    ensures
        session_ok(new_session(files, max)),
        startable(s) ==> session_ok(started(s)),
        session_ok(completed(s, file_name)),
        !completed(s, file_name).active_transfers.contains(file_name),
        completed(s, file_name).completed_files.contains(file_name),
{
    law_without_element(s.active_transfers, file_name, file_name);
    lemma_place_of(s.active_transfers, file_name);
    let c = s.completed_files;
    if !c.contains(file_name) {
        assert(c.push(file_name)[c.len() as int] == file_name);
    }
}

/// What may happen to a session.
pub ghost enum SessionStep {
    /// The next file is started, if one may start.
    Start,
    /// A file is completed.
    Complete(Seq<char>),
}

/// The session after a step.
pub open spec fn stepped(s: SyncSessionView, step: SessionStep) -> SyncSessionView {
    match step {
        SessionStep::Start => if startable(s) {
            started(s)
        } else {
            s
        },
        SessionStep::Complete(file_name) => completed(s, file_name),
    }
}

/// The session after the first `n` steps.
pub open spec fn ran(s: SyncSessionView, steps: Seq<SessionStep>, n: nat) -> SyncSessionView
    decreases n,
{
    if n == 0 {
        s
    } else {
        stepped(ran(s, steps, (n - 1) as nat), steps[n - 1])
    }
}

/// Each of the first `n` steps that completes a file completes an active one.
pub open spec fn orderly(s: SyncSessionView, steps: Seq<SessionStep>, n: nat) -> bool
    decreases n,
{
    n == 0 || {
        &&& orderly(s, steps, (n - 1) as nat)
        &&& steps[n - 1] matches SessionStep::Complete(f) ==> ran(
            s,
            steps,
            (n - 1) as nat,
        ).active_transfers.contains(f)
    }
}

/// Every file is pending, active or completed, and no file is two of these.
pub open spec fn accounted(s: SyncSessionView, files: nat) -> bool {
    &&& s.pending_files.len() + s.active_transfers.len() + s.completed_files.len() == files
    &&& s.pending_files.no_duplicates()
    &&& s.active_transfers.no_duplicates()
    &&& s.completed_files.no_duplicates()
    &&& forall|f: Seq<char>|
        #![trigger s.pending_files.contains(f)]
        #![trigger s.active_transfers.contains(f)]
        #![trigger s.completed_files.contains(f)]
        {
            &&& s.pending_files.contains(f) ==> !s.active_transfers.contains(f)
                && !s.completed_files.contains(f)
            &&& s.active_transfers.contains(f) ==> !s.completed_files.contains(f)
        }
}

proof fn lemma_step_accounted(s: SyncSessionView, step: SessionStep, files: nat)
    requires
        accounted(s, files),
        step matches SessionStep::Complete(f) ==> s.active_transfers.contains(f),
    ensures
        accounted(stepped(s, step), files),
{
    let t = stepped(s, step);
    match step {
        SessionStep::Start => {
            if startable(s) {
                let f = s.pending_files.last();
                let p = s.pending_files;
                assert(p.contains(f));
                assert(!s.active_transfers.contains(f));
                assert forall|g: Seq<char>| t.pending_files.contains(g) implies p.contains(g) && g
                    != f by {
                    let w = choose|w: int|
                        0 <= w < t.pending_files.len() && t.pending_files[w] == g;
                    assert(p[w] == g);
                }
                assert forall|g: Seq<char>| t.active_transfers.contains(g) implies g == f
                    || s.active_transfers.contains(g) by {
                    let w = choose|w: int|
                        0 <= w < t.active_transfers.len() && t.active_transfers[w] == g;
                    if w < s.active_transfers.len() {
                        assert(s.active_transfers[w] == g);
                    }
                }
            }
        },
        SessionStep::Complete(f) => {
            lemma_place_of(s.active_transfers, f);
            law_without_element(s.active_transfers, f, f);
            assert(!s.completed_files.contains(f));
            assert forall|g: Seq<char>| t.active_transfers.contains(g) implies g != f
                && s.active_transfers.contains(g) by {
                law_without_element(s.active_transfers, f, g);
            }
            assert forall|g: Seq<char>| t.completed_files.contains(g) implies g == f
                || s.completed_files.contains(g) by {
                let w = choose|w: int| 0 <= w < t.completed_files.len() && t.completed_files[w] == g;
                if w < s.completed_files.len() {
                    assert(s.completed_files[w] == g);
                }
            }
        },
    }
}

/// No file of a session is lost or counted twice, whatever happens to the session:
/// those that remain and those that were completed make up the list, and the session
/// is done exactly if none remains.
pub proof fn law_no_file_is_lost(
    files: Seq<Seq<char>>,
    max: usize,
    steps: Seq<SessionStep>,
    n: nat,
)
    requires
        files.no_duplicates(),
        orderly(new_session(files, max), steps, n),
    ensures
        ({
            let s = ran(new_session(files, max), steps, n);
            let remaining = s.pending_files.len() + s.active_transfers.len();
            &&& remaining + s.completed_files.len() == files.len()
            &&& finished(s) <==> remaining == 0
        }),
        accounted(ran(new_session(files, max), steps, n), files.len()),
    decreases n,
{
    if n > 0 {
        law_no_file_is_lost(files, max, steps, (n - 1) as nat);
        lemma_step_accounted(
            ran(new_session(files, max), steps, (n - 1) as nat),
            steps[n - 1],
            files.len(),
        );
    }
}

impl SyncSession {
    pub fn new(file_list: Vec<String>, max: usize) -> (r: Self)
        ensures
            r@ == new_session(texts(file_list@), max),
    {
        SyncSession {
            pending_files: file_list,
            active_transfers: KeySet::new(),
            completed_files: KeySet::new(),
            max_concurrent: max,
        }
    }

    /// Whether another file may start.
    pub fn can_start_more(&self) -> (r: bool)
        ensures
            r == startable(self@),
    {
        self.active_transfers.len() < self.max_concurrent && self.pending_files.len() > 0
    }

    /// Starts the next file, if one may start.
    pub fn start_next(&mut self) -> (r: Option<String>)
        ensures
            match r {
                Some(name) => {
                    &&& startable(old(self)@)
                    &&& name@ == old(self)@.pending_files.last()
                    &&& final(self)@ == started(old(self)@)
                },
                None => !startable(old(self)@) && final(self)@ == old(self)@,
            },
    {
        if !self.can_start_more() {
            return None;
        }
        let ghost before = texts(self.pending_files@);
        match self.pending_files.pop() {
            Some(name) => {
                assert(texts(self.pending_files@) =~= before.drop_last());
                self.active_transfers.insert(name.clone());
                Some(name)
            },
            None => None,
        }
    }

    /// Takes note that a file was completed.
    pub fn mark_complete(&mut self, file_name: &str)
        ensures
            final(self)@ == completed(old(self)@, file_name@),
    {
        let name = owned(file_name);
        self.active_transfers.remove(&name);
        self.completed_files.insert(name);
    }

    /// Whether everything was synced.
    pub fn is_done(&self) -> (r: bool)
        ensures
            r == finished(self@),
    {
        self.pending_files.len() == 0 && self.active_transfers.len() == 0
    }

    /// How many files remain.
    pub fn remaining(&self) -> (r: usize)
        requires
            self@.pending_files.len() + self@.active_transfers.len() <= usize::MAX,
        ensures
            r == self@.pending_files.len() + self@.active_transfers.len(),
    {
        self.pending_files.len() + self.active_transfers.len()
    }

    /// How many files were completed.
    pub fn completed(&self) -> (r: usize)
        ensures
            r == self@.completed_files.len(),
    {
        self.completed_files.len()
    }
}

} // verus!
