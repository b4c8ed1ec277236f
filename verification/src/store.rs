//! Where sessions are kept: the state directory of a workspace, one file for each
//! session of a profile, and one file that names the active session.
use vstd::prelude::*;
use crate::order::{is_stable_order, positions, stable_order};
use crate::path::{
    absolute, all_names, components, dot, dot_dot, extension, is_plain_name, join, joined_path, path_begins,
    path_extension, rendered,
};
use crate::path_laws::{
    below_is_transitive, files_have_names_and_extensions, joined_name_is_below,
};
use crate::provider::{ProviderConfig, ProviderConfigView};
use crate::session::{
    fresh_session, session_id, Session, SessionId, SessionSummary, SessionView,
};
use crate::text::{owned, same, to_chars};

verus! {

/// The directory below a workspace that holds the agent's state.
pub const STATE_DIR: &'static str = ".rust-codingagent";

/// The characters that a profile keeps in a file name.
pub open spec fn is_safe_char(c: char) -> bool {
    ||| ('a' <= c && c <= 'z')
    ||| ('A' <= c && c <= 'Z')
    ||| ('0' <= c && c <= '9')
    ||| c == '-'
    ||| c == '_'
    ||| c == '.'
}

/// A text as one safe path segment: other characters become underscores, and an empty
/// text becomes `default`.
pub open spec fn safe_segment(s: Seq<char>) -> Seq<char> {
    if s.len() == 0 {
        "default"@
    } else {
        Seq::new(s.len(), |i: int| if is_safe_char(s[i]) { s[i] } else { '_' })
    }
}

/// A text as one safe path segment.
pub fn sanitize_path_segment(input: &str) -> (r: String)
    ensures
        r@ == safe_segment(input@),
{
    let v = to_chars(input);
    if v.len() == 0 {
        return owned("default");
    }
    let mut r = String::new();
    let mut i: usize = 0;
    let ghost goal = safe_segment(input@);
    while i < v.len()
        invariant
            v@ == input@,
            v@.len() > 0,
            goal == safe_segment(input@),
            i <= v@.len(),
            r@ == goal.take(i as int),
        decreases v.len() - i,
    {
        let c = v[i];
        if ('a' <= c && c <= 'z') || ('A' <= c && c <= 'Z') || ('0' <= c && c <= '9') || c == '-'
            || c == '_' || c == '.' {
            r.push(c);
        } else {
            r.push('_');
        }
        proof {
            assert(goal.take(i + 1) =~= goal.take(i as int).push(goal[i as int]));
        }
        i += 1;
    }
    proof {
        assert(goal.take(input@.len() as int) =~= goal);
    }
    r
}

/// A safe segment is never empty, holds only safe characters, and stays as it is when
/// made safe again.
pub proof fn safe_segment_is_safe(s: Seq<char>)
    ensures
        safe_segment(s).len() > 0,
        forall|i: int| 0 <= i < safe_segment(s).len() ==> is_safe_char(#[trigger] safe_segment(s)[i]),
        safe_segment(safe_segment(s)) == safe_segment(s),
{
    reveal_strlit("default");
    let t = safe_segment(s);
    assert forall|i: int| 0 <= i < t.len() implies is_safe_char(#[trigger] t[i]) by {}
    assert(safe_segment(t) =~= t);
}

/// The files of one profile in one workspace.
#[derive(Debug)]
pub struct SessionStore {
    state_root: String,
    session_dir: String,
    active_file: String,
}

/// The paths that a store uses.
pub struct SessionStoreView {
    pub state_root: Seq<char>,
    pub session_dir: Seq<char>,
    pub active_file: Seq<char>,
}

impl View for SessionStore {
    type V = SessionStoreView;

    closed spec fn view(&self) -> SessionStoreView {
        SessionStoreView {
            state_root: self.state_root@,
            session_dir: self.session_dir@,
            active_file: self.active_file@,
        }
    }
}

/// The paths of a profile in a workspace.
pub open spec fn store_paths(workspace: Seq<char>, profile: Seq<char>) -> SessionStoreView {
    let root = joined_path(workspace, STATE_DIR@);
    let safe = safe_segment(profile);
    SessionStoreView {
        state_root: root,
        session_dir: joined_path(joined_path(root, "sessions"@), safe),
        active_file: joined_path(root, "active-"@ + safe + ".toml"@),
    }
}

/// A file operation that brings a store up to date.
#[derive(Debug, PartialEq, Eq)]
pub enum StoreStep {
    /// Create `directory`, then write the session to `file`.
    SaveSession { directory: String, file: String },
    /// Create `directory`, then write to `file` that `session_id` is active.
    SetActive { directory: String, file: String, session_id: SessionId },
}

/// The value of a store step.
pub enum StoreStepView {
    SaveSession { directory: Seq<char>, file: Seq<char> },
    SetActive { directory: Seq<char>, file: Seq<char>, session_id: Seq<char> },
}

impl View for StoreStep {
    type V = StoreStepView;

    open spec fn view(&self) -> StoreStepView {
        match self {
            StoreStep::SaveSession { directory, file } => StoreStepView::SaveSession {
                directory: directory@,
                file: file@,
            },
            StoreStep::SetActive { directory, file, session_id } => StoreStepView::SetActive {
                directory: directory@,
                file: file@,
                session_id: session_id@,
            },
        }
    }
}

/// The values of a list of steps.
pub open spec fn step_views(steps: Seq<StoreStep>) -> Seq<StoreStepView> {
    Seq::new(steps.len(), |i: int| steps[i]@)
}

/// The file of a session.
pub open spec fn session_file(store: SessionStoreView, id: Seq<char>) -> Seq<char> {
    joined_path(store.session_dir, id + ".toml"@)
}

/// The step that saves the session `id`.
pub open spec fn save_step(store: SessionStoreView, id: Seq<char>) -> StoreStepView {
    StoreStepView::SaveSession { directory: store.session_dir, file: session_file(store, id) }
}

/// The step that makes the session `id` the active one.
pub open spec fn activate_step(store: SessionStoreView, id: Seq<char>) -> StoreStepView {
    StoreStepView::SetActive {
        directory: store.state_root,
        file: store.active_file,
        session_id: id,
    }
}

impl SessionStore {
    /// The store of a profile in a workspace.
    pub fn new(workspace: &str, profile: &str) -> (r: Self)
        ensures
            r@ == store_paths(workspace@, profile@),
    {
        let state_root = join(workspace, STATE_DIR);
        let safe_profile = sanitize_path_segment(profile);
        let sessions = join(state_root.as_str(), "sessions");
        let session_dir = join(sessions.as_str(), safe_profile.as_str());
        let name = owned("active-").concat(safe_profile.as_str()).concat(".toml");
        let active_file = join(state_root.as_str(), name.as_str());
        SessionStore { state_root, session_dir, active_file }
    }

    /// The state directory.
    pub fn state_root(&self) -> (r: &str)
        ensures
            r@ == self@.state_root,
    {
        self.state_root.as_str()
    }

    /// The directory of the session files.
    pub fn session_dir(&self) -> (r: &str)
        ensures
            r@ == self@.session_dir,
    {
        self.session_dir.as_str()
    }

    /// The file that names the active session.
    pub fn active_file(&self) -> (r: &str)
        ensures
            r@ == self@.active_file,
    {
        self.active_file.as_str()
    }

    /// The file of the session `session_id`.
    pub fn session_path(&self, session_id: &str) -> (r: String)
        ensures
            r@ == session_file(self@, session_id@),
    {
        let name = owned(session_id).concat(".toml");
        join(self.session_dir.as_str(), name.as_str())
    }

    /// The step that saves a session.
    pub fn save_session(&self, session: &Session) -> (r: StoreStep)
        ensures
            r@ == save_step(self@, session.id@),
    {
        StoreStep::SaveSession {
            directory: self.session_dir.clone(),
            file: self.session_path(session.id.as_str()),
        }
    }

    /// The step that makes a session the active one.
    pub fn set_active_session(&self, session_id: &str) -> (r: StoreStep)
        ensures
            r@ == activate_step(self@, session_id@),
    {
        StoreStep::SetActive {
            directory: self.state_root.clone(),
            file: self.active_file.clone(),
            session_id: owned(session_id),
        }
    }

    /// A new session, and the steps that save it and then make it the active one.
    pub fn create_session(
        &self,
        profile: &str,
        workspace: &str,
        provider: ProviderConfig,
        pid: u32,
    ) -> (r: (Session, Vec<StoreStep>))
        ensures
            r.0@ == fresh_session(profile@, workspace@, provider@, r.0.created_at_ms, pid),
            step_views(r.1@) == seq![save_step(self@, r.0@.id), activate_step(self@, r.0@.id)],
    {
        let session = Session::new(profile, workspace, provider, pid);
        let mut steps: Vec<StoreStep> = Vec::new();
        steps.push(self.save_session(&session));
        steps.push(self.set_active_session(session.id.as_str()));
        proof {
            assert(step_views(steps@) =~= seq![
                save_step(self@, session@.id),
                activate_step(self@, session@.id),
            ]);
        }
        (session, steps)
    }

    /// The active session as it was loaded; where there is none, a new one with the steps
    /// that save it.
    pub fn get_or_create_active_session(
        &self,
        active: Option<Session>,
        profile: &str,
        workspace: &str,
        provider: ProviderConfig,
        pid: u32,
    ) -> (r: (Session, Vec<StoreStep>))
        ensures
            match active {
                Some(session) => r.0 == session && r.1@.len() == 0,
                None => {
                    &&& r.0@ == fresh_session(
                        profile@,
                        workspace@,
                        provider@,
                        r.0.created_at_ms,
                        pid,
                    )
                    &&& step_views(r.1@) == seq![
                        save_step(self@, r.0@.id),
                        activate_step(self@, r.0@.id),
                    ]
                },
            },
    {
        match active {
            Some(session) => (session, Vec::new()),
            None => self.create_session(profile, workspace, provider, pid),
        }
    }

    /// The sessions, the last changed first.
    pub fn list_sessions(&self, sessions: &Vec<SessionSummary>) -> (r: Vec<SessionSummary>)
        ensures
            is_newest_first(sessions@, r@),
    {
        let mut keys: Vec<u64> = Vec::new();
        let mut i: usize = 0;
        while i < sessions.len()
            invariant
                i <= sessions@.len(),
                keys@ == update_times(sessions@).take(i as int),
            decreases sessions.len() - i,
        {
            proof {
                let t = update_times(sessions@);
                assert(t.take(i + 1) =~= t.take(i as int).push(sessions@[i as int].updated_at_ms));
            }
            keys.push(sessions[i].updated_at_ms);
            i += 1;
        }
        proof {
            assert(update_times(sessions@).take(sessions@.len() as int) =~= update_times(sessions@));
        }
        let order = stable_order(&keys, true);
        let mut r: Vec<SessionSummary> = Vec::new();
        let ghost goal = Seq::new(order@.len(), |k: int| sessions@[positions(order@)[k]]);
        let mut j: usize = 0;
        while j < order.len()
            invariant
                j <= order@.len(),
                order@.len() == sessions@.len(),
                forall|k: int| 0 <= k < order@.len() ==> #[trigger] order@[k] < sessions@.len(),
                goal == Seq::new(order@.len(), |k: int| sessions@[positions(order@)[k]]),
                r@ == goal.take(j as int),
            decreases order.len() - j,
        {
            let at: usize = order[j];
            r.push(sessions[at].clone());
            proof {
                assert(goal[j as int] == sessions@[at as int]);
                assert(goal.take(j + 1) =~= goal.take(j as int).push(goal[j as int]));
            }
            j += 1;
        }
        proof {
            assert(goal.take(order@.len() as int) =~= goal);
            assert(goal =~= Seq::new(positions(order@).len(), |k: int| sessions@[positions(order@)[k]]));
        }
        r
    }
}

/// Whether a file of the session directory holds a session.
pub open spec fn names_session_file(p: Seq<char>) -> bool {
    path_extension(p) == Some("toml"@)
}

/// Whether a file of the session directory holds a session.
pub fn is_session_file(p: &str) -> (r: bool)
    ensures
        r == names_session_file(p@),
{
    match extension(p) {
        Some(ext) => same(ext.as_str(), "toml"),
        None => false,
    }
}

/// When each session was last changed.
pub open spec fn update_times(sessions: Seq<SessionSummary>) -> Seq<u64> {
    Seq::new(sessions.len(), |i: int| sessions[i].updated_at_ms)
}

/// Whether `r` lists the sessions `all`, the last changed first, those changed at the
/// same time in their order in `all`.
pub open spec fn is_newest_first(all: Seq<SessionSummary>, r: Seq<SessionSummary>) -> bool {
    exists|order: Seq<int>|
        is_stable_order(update_times(all), true, order) && r == Seq::new(
            order.len(),
            |i: int| all[order[i]],
        )
}

// ---------------------------------------------------------------------------
// Laws
// ---------------------------------------------------------------------------

proof fn lemma_safe_chars_have_no_slash(s: Seq<char>)
    requires
        forall|i: int| 0 <= i < s.len() ==> is_safe_char(#[trigger] s[i]),
    ensures
        forall|i: int| 0 <= i < s.len() ==> #[trigger] s[i] != '/',
{
}

/// All that a store writes lies in the state directory of its workspace. A profile that
/// reads as `.` or `..` is the one exception for the session files.
pub proof fn store_stays_in_workspace(workspace: Seq<char>, profile: Seq<char>)
    ensures
        ({
            let paths = store_paths(workspace, profile);
            &&& path_begins(paths.state_root, workspace)
            &&& path_begins(paths.active_file, paths.state_root)
            &&& is_plain_name(safe_segment(profile)) ==> path_begins(
                paths.session_dir,
                paths.state_root,
            )
            &&& !is_plain_name(safe_segment(profile)) ==> safe_segment(profile) == dot()
                || safe_segment(profile) == dot_dot()
        }),
{
    let paths = store_paths(workspace, profile);
    let safe = safe_segment(profile);
    safe_segment_is_safe(profile);
    lemma_safe_chars_have_no_slash(safe);
    reveal_strlit(".rust-codingagent");
    assert(STATE_DIR@.len() == 17);
    assert(is_plain_name(STATE_DIR@));
    joined_name_is_below(workspace, STATE_DIR@);
    reveal_strlit("sessions");
    assert("sessions"@.len() == 8);
    assert(is_plain_name("sessions"@));
    joined_name_is_below(paths.state_root, "sessions"@);
    let sessions = joined_path(paths.state_root, "sessions"@);
    if is_plain_name(safe) {
        joined_name_is_below(sessions, safe);
        below_is_transitive(paths.session_dir, sessions, paths.state_root);
    }
    reveal_strlit("active-");
    reveal_strlit(".toml");
    let name = "active-"@ + safe + ".toml"@;
    assert(name[0] == 'a');
    assert(is_plain_name(name)) by {
        assert forall|i: int| 0 <= i < name.len() implies #[trigger] name[i] != '/' by {
            if 7 <= i < 7 + safe.len() {
                assert(name[i] == safe[i - 7]);
            }
        }
        assert(dot()[0] == '.' && dot_dot()[0] == '.');
    }
    joined_name_is_below(paths.state_root, name);
}

/// The file of a session that is created lies in the directory of the session files.
pub proof fn session_files_stay_in_directory(store: SessionStoreView, now: u64, pid: u32)
    ensures
        path_begins(session_file(store, session_id(now, pid)), store.session_dir),
{
    let id = session_id(now, pid);
    crate::rollback::record::lemma_decimal_safe(now as nat);
    crate::rollback::record::lemma_decimal_safe(pid as nat);
    assert forall|i: int| 0 <= i < id.len() implies is_safe_char(#[trigger] id[i]) by {}
    reveal_strlit(".toml");
    let name = id + ".toml"@;
    assert(name[0] == 's');
    assert(is_plain_name(name)) by {
        assert(dot()[0] == '.' && dot_dot()[0] == '.');
        assert forall|i: int| 0 <= i < name.len() implies #[trigger] name[i] != '/' by {
            if i < id.len() {
                assert(name[i] == id[i]);
            }
        }
    }
    joined_name_is_below(store.session_dir, name);
}

/// What a file of a store holds.
pub enum StoredView {
    /// A session.
    Session { session: SessionView },
    /// Which session is the active one.
    Active { id: Seq<char> },
}

/// The files once a step was carried out for a session.
pub open spec fn after_step(
    files: Map<Seq<char>, StoredView>,
    step: StoreStepView,
    session: SessionView,
) -> Map<Seq<char>, StoredView> {
    match step {
        StoreStepView::SaveSession { directory, file } => files.insert(
            file,
            StoredView::Session { session },
        ),
        StoreStepView::SetActive { directory, file, session_id } => files.insert(
            file,
            StoredView::Active { id: session_id },
        ),
    }
}

/// The files once steps were carried out in turn for a session.
pub open spec fn after_steps(
    files: Map<Seq<char>, StoredView>,
    steps: Seq<StoreStepView>,
    session: SessionView,
) -> Map<Seq<char>, StoredView>
    decreases steps.len(),
{
    if steps.len() == 0 {
        files
    } else {
        after_step(after_steps(files, steps.drop_last(), session), steps.last(), session)
    }
}

/// The session that the file of an id holds.
pub open spec fn stored_session(
    files: Map<Seq<char>, StoredView>,
    store: SessionStoreView,
    id: Seq<char>,
) -> Option<SessionView> {
    let file = session_file(store, id);
    if files.contains_key(file) && files[file] is Session {
        Some(files[file]->session)
    } else {
        None
    }
}

/// The session that the active entry leads to.
pub open spec fn stored_active_session(
    files: Map<Seq<char>, StoredView>,
    store: SessionStoreView,
) -> Option<SessionView> {
    let file = store.active_file;
    if files.contains_key(file) && files[file] is Active {
        stored_session(files, store, files[file]->id)
    } else {
        None
    }
}

/// Different sessions have different files. An id that starts with a slash is no name in a
/// directory.
pub proof fn different_sessions_have_different_files(
    store: SessionStoreView,
    a: Seq<char>,
    b: Seq<char>,
)
    requires
        a != b,
        !absolute(a),
        !absolute(b),
    ensures
        session_file(store, a) != session_file(store, b),
{
    reveal_strlit(".toml");
    let x = a + ".toml"@;
    let y = b + ".toml"@;
    if session_file(store, a) == session_file(store, b) {
        let n = session_file(store, a).len() - x.len();
        let m = session_file(store, b).len() - y.len();
        assert(n == m);
        assert(session_file(store, a).skip(n) =~= x);
        assert(session_file(store, b).skip(n) =~= y);
        assert(a =~= x.take(x.len() - 5));
        assert(b =~= y.take(y.len() - 5));
    }
}

proof fn lemma_session_file_is_not_active_file(
    workspace: Seq<char>,
    profile: Seq<char>,
    id: Seq<char>,
)
    requires
        !absolute(id),
    ensures
        ({
            let store = store_paths(workspace, profile);
            session_file(store, id) != store.active_file
        }),
{
    let store = store_paths(workspace, profile);
    reveal_strlit(".rust-codingagent");
    reveal_strlit("sessions");
    reveal_strlit("active-");
    reveal_strlit(".toml");
    safe_segment_is_safe(profile);
    let root = store.state_root;
    let safe = safe_segment(profile);
    assert(STATE_DIR@.len() == 17 && STATE_DIR@[16] == 't');
    assert(root.len() > 0 && root[root.len() - 1] == 't');
    assert(is_safe_char(safe[0]));
    let at = root.len() as int + 1;
    let sessions = joined_path(root, "sessions"@);
    assert(sessions[at] == 's');
    assert(store.session_dir[at] == 's');
    let name = id + ".toml"@;
    assert(!absolute(name));
    assert(session_file(store, id)[at] == 's');
    assert(store.active_file[at] == 'a');
}

/// What is created is what is loaded: once the steps that create a session were carried
/// out, its file holds it, the active entry leads to it, and the files of all other
/// sessions hold what they held.
pub proof fn created_sessions_are_loaded(
    files: Map<Seq<char>, StoredView>,
    workspace: Seq<char>,
    profile: Seq<char>,
    provider: ProviderConfigView,
    now: u64,
    pid: u32,
)
    ensures
        ({
            let store = store_paths(workspace, profile);
            let session = fresh_session(profile, workspace, provider, now, pid);
            let steps = seq![save_step(store, session.id), activate_step(store, session.id)];
            let after = after_steps(files, steps, session);
            &&& stored_session(after, store, session.id) == Some(session)
            &&& stored_active_session(after, store) == Some(session)
            &&& forall|id: Seq<char>|
                id != session.id && !absolute(id) ==> #[trigger] stored_session(after, store, id)
                    == stored_session(files, store, id)
        }),
{
    let store = store_paths(workspace, profile);
    let session = fresh_session(profile, workspace, provider, now, pid);
    let first = save_step(store, session.id);
    let second = activate_step(store, session.id);
    let steps = seq![first, second];
    let after = after_steps(files, steps, session);
    assert(steps.drop_last() =~= seq![first]);
    assert(seq![first].drop_last() =~= Seq::<StoreStepView>::empty());
    assert(after_steps(files, Seq::<StoreStepView>::empty(), session) == files);
    assert(after_steps(files, seq![first], session) == after_step(files, first, session));
    assert(session.id[0] == 's');
    lemma_session_file_is_not_active_file(workspace, profile, session.id);
    assert forall|id: Seq<char>| id != session.id && !absolute(id) implies #[trigger] stored_session(
        after,
        store,
        id,
    ) == stored_session(files, store, id) by {
        different_sessions_have_different_files(store, id, session.id);
        lemma_session_file_is_not_active_file(workspace, profile, id);
    }
}

/// A session that is saved again is loaded as it was saved, and the active entry and the
/// files of all other sessions stay as they were.
pub proof fn saved_sessions_are_loaded(
    files: Map<Seq<char>, StoredView>,
    workspace: Seq<char>,
    profile: Seq<char>,
    session: SessionView,
)
    requires
        !absolute(session.id),
    ensures
        ({
            let store = store_paths(workspace, profile);
            let after = after_step(files, save_step(store, session.id), session);
            &&& stored_session(after, store, session.id) == Some(session)
            &&& after.contains_key(store.active_file) == files.contains_key(store.active_file)
            &&& after[store.active_file] == files[store.active_file]
            &&& forall|id: Seq<char>|
                id != session.id && !absolute(id) ==> #[trigger] stored_session(after, store, id)
                    == stored_session(files, store, id)
        }),
{
    let store = store_paths(workspace, profile);
    let after = after_step(files, save_step(store, session.id), session);
    lemma_session_file_is_not_active_file(workspace, profile, session.id);
    assert forall|id: Seq<char>| id != session.id && !absolute(id) implies #[trigger] stored_session(
        after,
        store,
        id,
    ) == stored_session(files, store, id) by {
        different_sessions_have_different_files(store, id, session.id);
    }
}

/// A profile keeps its letters, digits, hyphens, underscores and dots, each in its place;
/// every other character becomes an underscore.
pub proof fn profiles_keep_their_safe_characters(s: Seq<char>, i: int)
    requires
        0 <= i < s.len(),
    ensures
        safe_segment(s).len() == s.len(),
        ('a' <= s[i] && s[i] <= 'z') || ('A' <= s[i] && s[i] <= 'Z') || ('0' <= s[i] && s[i] <= '9')
            || s[i] == '-' || s[i] == '_' || s[i] == '.' ==> safe_segment(s)[i] == s[i],
        !(('a' <= s[i] && s[i] <= 'z') || ('A' <= s[i] && s[i] <= 'Z') || ('0' <= s[i] && s[i]
            <= '9') || s[i] == '-' || s[i] == '_' || s[i] == '.') ==> safe_segment(s)[i] == '_',
        safe_segment(Seq::empty()) == "default"@,
{
}

/// A session is kept in a file of its own name, below the directory of its profile; which one
/// is active is kept beside those directories, by profile too.
pub proof fn sessions_are_kept_by_profile(workspace: Seq<char>, profile: Seq<char>, id: Seq<char>)
    requires
        is_plain_name(safe_segment(profile)),
        is_plain_name(id + ".toml"@),
    ensures
        ({
            let store = store_paths(workspace, profile);
            let state = components(workspace).push(".rust-codingagent"@);
            &&& components(store.state_root) == state
            &&& components(session_file(store, id)) == state + seq![
                "sessions"@,
                safe_segment(profile),
                id + ".toml"@,
            ]
            &&& components(store.active_file) == state.push(
                "active-"@ + safe_segment(profile) + ".toml"@,
            )
        }),
{
    let store = store_paths(workspace, profile);
    let safe = safe_segment(profile);
    safe_segment_is_safe(profile);
    lemma_safe_chars_have_no_slash(safe);
    reveal_strlit(".rust-codingagent");
    assert(STATE_DIR@.len() == 17);
    assert(is_plain_name(STATE_DIR@));
    joined_name_is_below(workspace, STATE_DIR@);
    reveal_strlit("sessions");
    assert("sessions"@.len() == 8);
    assert(is_plain_name("sessions"@));
    joined_name_is_below(store.state_root, "sessions"@);
    joined_name_is_below(joined_path(store.state_root, "sessions"@), safe);
    joined_name_is_below(store.session_dir, id + ".toml"@);
    let state = components(workspace).push(".rust-codingagent"@);
    assert(state.push("sessions"@).push(safe).push(id + ".toml"@) =~= state + seq![
        "sessions"@,
        safe,
        id + ".toml"@,
    ]);
    reveal_strlit("active-");
    reveal_strlit(".toml");
    let name = "active-"@ + safe + ".toml"@;
    assert(name[0] == 'a');
    assert(is_plain_name(name)) by {
        assert forall|i: int| 0 <= i < name.len() implies #[trigger] name[i] != '/' by {
            if 7 <= i < 7 + safe.len() {
                assert(name[i] == safe[i - 7]);
            }
        }
        assert(dot()[0] == '.' && dot_dot()[0] == '.');
    }
    joined_name_is_below(store.state_root, name);
}

/// Listed sessions are all there, and none was changed later than one listed before it.
pub proof fn listed_sessions_are_in_order(
    all: Seq<SessionSummary>,
    r: Seq<SessionSummary>,
    i: int,
    j: int,
)
    requires
        is_newest_first(all, r),
        0 <= i < j < r.len(),
    ensures
        r.len() == all.len(),
        r[i].updated_at_ms >= r[j].updated_at_ms,
        all.contains(r[i]),
        forall|k: int| 0 <= k < all.len() ==> r.contains(#[trigger] all[k]),
{
    let order = choose|order: Seq<int>|
        is_stable_order(update_times(all), true, order) && r == Seq::new(
            order.len(),
            |i: int| all[order[i]],
        );
    assert(crate::order::comes_before(update_times(all), true, order[i], order[j]));
    assert(r[i] == all[order[i]]);
    assert forall|k: int| 0 <= k < all.len() implies r.contains(#[trigger] all[k]) by {
        assert(order.contains(k));
        let at = choose|at: int| 0 <= at < order.len() && order[at] == k;
        assert(r[at] == all[k]);
    }
}

/// A file holds a session where its name ends with `.toml`, and a name before that.
pub proof fn session_files_end_in_toml(
    rooted: bool,
    names: Seq<Seq<char>>,
    stem: Seq<char>,
    ext: Seq<char>,
)
    requires
        all_names(names),
        is_plain_name(stem + seq!['.'] + ext),
        is_plain_name(ext),
        !ext.contains('.'),
        stem.len() > 0,
    ensures
        names_session_file(rendered(rooted, names.push(stem + seq!['.'] + ext))) <==> ext
            == "toml"@,
{
    files_have_names_and_extensions(rooted, names, stem, ext);
}

} // verus!
