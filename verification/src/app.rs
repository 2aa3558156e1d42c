//! The directory that is shown, and the way back and forth.

use crate::error::{FsError, IoKind};
use crate::file_ops::PathKind;
use crate::listing::{is_listing, list, DirectoryEntry, RawEntry};
use crate::path::{
    all_segments, is_path_text, is_segment, lemma_segments_of_text, path_text, segments_of, views,
    AbsolutePath,
};
use vstd::prelude::*;

verus! {

/// The state of navigation: the segments of the current directory, and the
/// segments that were left on the way back, the one left last at the end.
pub struct PathState {
    pub path: Seq<Seq<char>>,
    pub history: Seq<Seq<char>>,
}

impl PathState {
    /// Path and history hold segments only.
    pub open spec fn wf(self) -> bool {
        all_segments(self.path) && all_segments(self.history)
    }

    /// One step towards the root: the last segment moves to the history.
    /// At the root nothing changes.
    pub open spec fn back(self) -> PathState {
        if self.path.len() == 0 {
            self
        } else {
            PathState { path: self.path.drop_last(), history: self.history.push(self.path.last()) }
        }
    }

    /// One step back into the directory that was left last. With an empty
    /// history nothing changes.
    pub open spec fn forward(self) -> PathState {
        if self.history.len() == 0 {
            self
        } else {
            PathState {
                path: self.path.push(self.history.last()),
                history: self.history.drop_last(),
            }
        }
    }

    /// Into the child `name`. The way forth is forgotten whatever the name;
    /// a name that is no segment leaves the path as it is.
    pub open spec fn enter(self, name: Seq<char>) -> PathState {
        PathState {
            path: if is_segment(name) {
                self.path.push(name)
            } else {
                self.path
            },
            history: Seq::empty(),
        }
    }

    /// To the directory whose text is `text`, with nothing to go forward to.
    /// A text that is not the text of a path changes nothing.
    pub open spec fn jump(self, text: Seq<char>) -> PathState {
        if is_path_text(text) {
            PathState { path: segments_of(text), history: Seq::empty() }
        } else {
            self
        }
    }

    /// `steps` steps towards the root.
    pub open spec fn back_by(self, steps: nat) -> PathState
        decreases steps,
    {
        if steps == 0 {
            self
        } else {
            self.back().back_by((steps - 1) as nat)
        }
    }

    /// The whole branch that was walked: the path, and after it the segments
    /// of the history in the order in which going forward would add them.
    pub open spec fn branch(self) -> Seq<Seq<char>> {
        self.path + self.history.reverse()
    }
}

/// Every step keeps path and history made of segments.
pub proof fn lemma_steps_keep_wf(state: PathState, name: Seq<char>, text: Seq<char>)
    requires
        state.wf(),
    ensures
        state.back().wf(),
        state.forward().wf(),
        state.enter(name).wf(),
        state.jump(text).wf(),
{
    assert(state.back().wf()) by {
        let next = state.back();
        assert forall|i: int| 0 <= i < next.path.len() implies is_segment(
            #[trigger] next.path[i],
        ) by {
            assert(next.path[i] == state.path[i]);
        }
        assert forall|i: int| 0 <= i < next.history.len() implies is_segment(
            #[trigger] next.history[i],
        ) by {
            if i < state.history.len() {
                assert(next.history[i] == state.history[i]);
            } else {
                assert(next.history[i] == state.path[state.path.len() - 1]);
            }
        }
    }
    assert(state.forward().wf()) by {
        let next = state.forward();
        assert forall|i: int| 0 <= i < next.path.len() implies is_segment(
            #[trigger] next.path[i],
        ) by {
            if i < state.path.len() {
                assert(next.path[i] == state.path[i]);
            } else {
                assert(next.path[i] == state.history[state.history.len() - 1]);
            }
        }
        assert forall|i: int| 0 <= i < next.history.len() implies is_segment(
            #[trigger] next.history[i],
        ) by {
            assert(next.history[i] == state.history[i]);
        }
    }
    assert(state.enter(name).wf()) by {
        let next = state.enter(name);
        assert forall|i: int| 0 <= i < next.path.len() implies is_segment(
            #[trigger] next.path[i],
        ) by {
            if i < state.path.len() {
                assert(next.path[i] == state.path[i]);
            }
        }
    }
}

/// Going back at the root changes nothing, however often it is done; and
/// from any directory, going back at least as often as the directory is deep
/// ends at the root, where one more step changes nothing.
pub proof fn lemma_back_stops_at_root(state: PathState, steps: nat)
    ensures
        state.path.len() == 0 ==> state.back_by(steps) == state,
        steps >= state.path.len() ==> state.back_by(steps).path.len() == 0,
        steps >= state.path.len() ==> state.back_by(steps).back() == state.back_by(steps),
        steps <= state.path.len() ==> state.back_by(steps).path == state.path.take(
            state.path.len() - steps,
        ),
    decreases steps,
{
    if steps == 0 {
        assert(state.path.take(state.path.len() as int) =~= state.path);
    } else {
        lemma_back_stops_at_root(state.back(), (steps - 1) as nat);
        if state.path.len() > 0 && steps <= state.path.len() {
            assert(state.path.drop_last().take(state.path.len() - steps) =~= state.path.take(
                state.path.len() - steps,
            ));
        }
    }
}

/// Going back and then forward at once restores path and history exactly,
/// from any directory that has a parent.
pub proof fn lemma_back_then_forward(state: PathState)
    requires
        state.path.len() > 0,
    ensures
        state.back().forward() == state,
{
    let there = state.back();
    assert(there.history.drop_last() =~= state.history);
    assert(there.path.push(there.history.last()) =~= state.path);
}

/// After a child was opened, going forward changes nothing.
pub proof fn lemma_enter_then_forward(state: PathState, name: Seq<char>)
    ensures
        state.enter(name).history.len() == 0,
        state.enter(name).forward() == state.enter(name),
{
}

/// A jump that is accepted leads to the path with the given text and leaves
/// nothing to go forward to; a jump that is not accepted changes nothing. So
/// after any jump the path is the old one, or the one with the given text.
pub proof fn lemma_jump(state: PathState, text: Seq<char>)
    ensures
        is_path_text(text) ==> path_text(state.jump(text).path) == text,
        is_path_text(text) ==> state.jump(text).forward() == state.jump(text),
        !is_path_text(text) ==> state.jump(text) == state,
{
}

/// Going back and going forward walk along one branch: the path followed by
/// what the history would add stays the same. Only opening a child or
/// jumping elsewhere starts a new branch, which then is the path alone.
pub proof fn lemma_branch_is_kept(state: PathState, name: Seq<char>, text: Seq<char>)
    ensures
        state.back().branch() == state.branch(),
        state.forward().branch() == state.branch(),
        state.enter(name).branch() == state.enter(name).path,
        is_path_text(text) ==> state.jump(text).branch() == state.jump(text).path,
{
    if state.path.len() > 0 {
        let next = state.back();
        assert(next.history.reverse() =~= seq![state.path.last()] + state.history.reverse());
        assert(next.branch() =~= state.branch());
    }
    if state.history.len() > 0 {
        let next = state.forward();
        assert(state.history.reverse() =~= seq![state.history.last()] + next.history.reverse());
        assert(next.branch() =~= state.branch());
    }
    assert(state.enter(name).branch() =~= state.enter(name).path);
    if is_path_text(text) {
        assert(state.jump(text).branch() =~= state.jump(text).path);
    }
}

/// The navigation state of the browser: the directory that is shown, and
/// the history of the directories that were left by going back.
#[derive(Debug)]
pub struct App {
    current_path: AbsolutePath,
    path_history: Vec<String>,
}

impl View for App {
    type V = PathState;

    closed spec fn view(&self) -> PathState {
        PathState { path: self.current_path@, history: views(self.path_history@) }
    }
}

impl App {
    /// Path and history hold segments only.
    pub open spec fn wf(&self) -> bool {
        self@.wf()
    }

    /// The state of a browser that starts in `start`, with nothing to go
    /// forward to.
    pub fn new(start: AbsolutePath) -> (app: App)
        requires
            start.wf(),
        ensures
            app.wf(),
            app@.path == start@,
            app@.history.len() == 0,
    {
        App { current_path: start, path_history: Vec::new() }
    }

    /// The directory that is shown.
    pub fn current(&self) -> (path: &AbsolutePath)
        requires
            self.wf(),
        ensures
            path.wf(),
            path@ == self@.path,
    {
        &self.current_path
    }

    /// The segments that going forward would add to the path, the next one
    /// at the end.
    pub fn history(&self) -> (history: &Vec<String>)
        ensures
            views(history@) == self@.history,
    {
        &self.path_history
    }

    /// The text of the directory that is shown.
    pub fn get_current_path(&self) -> (text: String)
        ensures
            text@ == path_text(self@.path),
    {
        self.current_path.to_string()
    }

    /// Goes to the parent of the current directory and remembers the segment
    /// that was left. At the root this does nothing.
    pub fn navigate_back(&mut self)
        requires
            old(self).wf(),
        ensures
            final(self).wf(),
            final(self)@ == old(self)@.back(),
    {
        proof {
            lemma_steps_keep_wf(self@, Seq::empty(), Seq::empty());
        }
        let ghost before = self@;
        match self.current_path.pop() {
            Some(left) => {
                self.path_history.push(left);
                proof {
                    assert(views(self.path_history@) =~= before.history.push(left@));
                }
            },
            None => {},
        }
    }

    /// Goes back into the directory that was left last. With an empty
    /// history this does nothing.
    pub fn navigate_forward(&mut self)
        requires
            old(self).wf(),
        ensures
            final(self).wf(),
            final(self)@ == old(self)@.forward(),
    {
        proof {
            lemma_steps_keep_wf(self@, Seq::empty(), Seq::empty());
        }
        let ghost before = self@;
        match self.path_history.pop() {
            Some(name) => {
                proof {
                    assert(views(self.path_history@) =~= before.history.drop_last());
                    assert(name@ == before.history.last());
                }
                let pushed = self.current_path.push(name);
                assert(pushed);
            },
            None => {},
        }
    }

    /// Opens the child `dir_name` of the current directory and forgets the
    /// way forth. Whether the child exists is not asked: a listing of it
    /// will tell. A name that cannot be a segment of a path leaves the
    /// directory as it is.
    pub fn open_dir(&mut self, dir_name: String)
        requires
            old(self).wf(),
        ensures
            final(self).wf(),
            final(self)@ == old(self)@.enter(dir_name@),
    {
        proof {
            lemma_steps_keep_wf(self@, dir_name@, Seq::empty());
        }
        let _ = self.current_path.push(dir_name);
        self.path_history.clear();
        proof {
            assert(views(self.path_history@) =~= Seq::<Seq<char>>::empty());
        }
    }

    /// Jumps to the directory whose text is `path`, at which the host found
    /// `found`, and forgets the way forth. The jump is made only to a
    /// directory that is there: where the host found anything else or
    /// nothing, and where the text is not that of an absolute, normalised
    /// path, nothing changes, not the history either, and nothing is
    /// reported. The host resolves what the user typed against the
    /// filesystem and hands over the text of the place that it was led to.
    pub fn set_path(&mut self, path: String, found: PathKind)
        requires
            old(self).wf(),
        ensures
            final(self).wf(),
            final(self)@ == if found is Directory {
                old(self)@.jump(path@)
            } else {
                old(self)@
            },
    {
        match found {
            PathKind::Directory => {},
            _ => {
                return;
            },
        }
        match AbsolutePath::parse(path.as_str()) {
            Ok(target) => {
                proof {
                    lemma_segments_of_text(target@);
                }
                self.current_path = target;
                self.path_history.clear();
                proof {
                    assert(views(self.path_history@) =~= Seq::<Seq<char>>::empty());
                }
            },
            Err(_) => {},
        }
    }

    /// The listing of the current directory from what the host read of it.
    pub fn get_current_dir_contents(
        &self,
        read: &Result<Vec<Result<RawEntry, IoKind>>, IoKind>,
    ) -> (listing: Result<Vec<DirectoryEntry>, FsError>)
        requires
            self.wf(),
        ensures
            is_listing(listing, self@.path, *read),
    {
        list(&self.current_path, read)
    }

    /// Acts on the entry that the user opened. A directory becomes the
    /// current directory, as by [`App::open_dir`]. A file leaves the state as
    /// it is, and the text of its path is handed out for the host to open
    /// with the program that the platform provides.
    pub fn open_entry(&mut self, entry: &DirectoryEntry) -> (file: Option<String>)
        requires
            old(self).wf(),
        ensures
            final(self).wf(),
            entry.spec_is_directory() ==> file is None && final(self)@ == old(self)@.enter(
                entry.spec_name(),
            ),
            !entry.spec_is_directory() ==> final(self)@ == old(self)@ && file is Some
                && file->0@ == path_text(entry.spec_abs_path()),
    {
        if entry.is_directory() {
            self.open_dir(entry.name().clone());
            None
        } else {
            Some(entry.abs_path())
        }
    }
}

} // verus!
