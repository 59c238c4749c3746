//! Sessions and the conversations tracked inside them.
use vstd::prelude::*;
use crate::analyze::{file_name_of, path_file_name};
use crate::stamp::{now_rfc3339, utc_stamp};
use crate::text::{all_ascii, chars_eq, chars_of, lowercase, to_lowercase};

verus! {

/// Whether a conversation is kept.
#[derive(Debug, Clone, Copy, PartialEq, Eq, Structural)]
pub enum ConversationMode {
    /// Fully tracked; survives restarts.
    Persist,
    /// Kept in memory only.
    Incognito,
}

impl Default for ConversationMode {
    /// Conversations are kept unless asked otherwise.
    fn default() -> (r: Self)
        ensures
            r == ConversationMode::Persist,
    {
        ConversationMode::Persist
    }
}

/// A mode's name.
pub open spec fn mode_name(m: ConversationMode) -> Seq<char> {
    match m {
        ConversationMode::Persist => "persist"@,
        ConversationMode::Incognito => "incognito"@,
    }
}

/// The mode a name selects, ignoring case, or the error message.
pub open spec fn mode_from_text(s: Seq<char>) -> Result<ConversationMode, Seq<char>> {
    let l = lowercase(s);
    if l == "persist"@ {
        Ok(ConversationMode::Persist)
    } else if l == "incognito"@ {
        Ok(ConversationMode::Incognito)
    } else {
        Err("Invalid conversation mode: '"@ + s + "'. Expected 'persist' or 'incognito'"@)
    }
}

impl ConversationMode {
    /// The mode's name: `persist` or `incognito`.
    pub fn to_string(&self) -> (r: String)
        ensures
            r@ == mode_name(*self),
    {
        match self {
            ConversationMode::Persist => "persist".to_owned(),
            ConversationMode::Incognito => "incognito".to_owned(),
        }
    }

    /// The mode a name selects, ignoring case; a mode's own name selects
    /// it.
    pub fn parse(s: &str) -> (r: Result<Self, String>)
        ensures
            match mode_from_text(s@) {
                Ok(m) => r == Ok::<ConversationMode, String>(m),
                Err(e) => r matches Err(x) && x@ == e,
            },
            forall|m: ConversationMode| #[trigger] mode_name(m) == s@ ==> r == Ok::<ConversationMode, String>(m),
    {
        proof {
            reveal_strlit("persist");
            reveal_strlit("incognito");
            if s@ == mode_name(ConversationMode::Persist) || s@ == mode_name(ConversationMode::Incognito) {
                assert(all_ascii(s@));
            }
        }
        let l = to_lowercase(s);
        proof {
            if s@ == mode_name(ConversationMode::Persist) || s@ == mode_name(ConversationMode::Incognito) {
                assert(l@ =~= s@);
            }
        }
        let lc = chars_of(l.as_str());
        let p = chars_of("persist");
        let i = chars_of("incognito");
        if chars_eq(&lc, &p) {
            Ok(ConversationMode::Persist)
        } else if chars_eq(&lc, &i) {
            Ok(ConversationMode::Incognito)
        } else {
            let mut v = chars_of("Invalid conversation mode: '");
            crate::text::append_str(&mut v, s);
            crate::text::append_str(&mut v, "'. Expected 'persist' or 'incognito'");
            Err(crate::text::string_of(&v))
        }
    }
}

impl std::str::FromStr for ConversationMode {
    type Err = String;

    fn from_str(s: &str) -> (r: Result<Self, String>)
        ensures
            match mode_from_text(s@) {
                Ok(m) => r == Ok::<ConversationMode, String>(m),
                Err(e) => r matches Err(x) && x@ == e,
            },
            forall|m: ConversationMode| #[trigger] mode_name(m) == s@ ==> r == Ok::<ConversationMode, String>(m),
    {
        ConversationMode::parse(s)
    }
}

/// A conversation inside a session.
#[derive(Debug, Clone)]
pub struct ConversationContext {
    pub id: String,
    pub mode: ConversationMode,
    /// When it started (RFC 3339).
    pub started: String,
    /// When it was last active (RFC 3339).
    pub last_active: String,
}

impl ConversationContext {
    /// A kept conversation starting now.
    pub fn new(id: &str) -> (r: Self)
        ensures
            r.id@ == id@,
            r.mode == ConversationMode::Persist,
            r.started == r.last_active,
            utc_stamp(r.started@),
    {
        let now = now_rfc3339();
        ConversationContext { id: id.to_owned(), mode: ConversationMode::Persist, started: now.clone(), last_active: now }
    }

    /// An incognito conversation starting now.
    pub fn new_incognito(id: &str) -> (r: Self)
        ensures
            r.id@ == id@,
            r.mode == ConversationMode::Incognito,
            r.started == r.last_active,
            utc_stamp(r.started@),
    {
        let mut c = ConversationContext::new(id);
        c.mode = ConversationMode::Incognito;
        c
    }

    /// An equal copy.
    pub fn duplicate(&self) -> (r: Self)
        ensures
            r == *self,
    {
        ConversationContext {
            id: self.id.clone(),
            mode: self.mode,
            started: self.started.clone(),
            last_active: self.last_active.clone(),
        }
    }

    /// Marks the conversation active now: its last activity becomes the
    /// current UTC time in RFC 3339 form.
    pub fn touch(&mut self)
        ensures
            final(self).id == old(self).id,
            final(self).mode == old(self).mode,
            final(self).started == old(self).started,
            utc_stamp(final(self).last_active@),
    {
        self.last_active = now_rfc3339();
    }

    /// Whether the conversation is kept.
    pub fn is_persist(&self) -> (r: bool)
        ensures
            r == (self.mode == ConversationMode::Persist),
    {
        self.mode == ConversationMode::Persist
    }

    /// Whether the conversation is incognito.
    pub fn is_incognito(&self) -> (r: bool)
        ensures
            r == (self.mode == ConversationMode::Incognito),
    {
        self.mode == ConversationMode::Incognito
    }
}

/// Descriptive data of a session.
#[derive(Debug, Clone)]
pub struct SessionMetadata {
    pub label: Option<String>,
    pub tags: Vec<String>,
    /// Recently used files, most recent last.
    pub recent_files: Vec<String>,
    pub aiignore_patterns: Vec<String>,
}

impl SessionMetadata {
    /// No label, tags or files.
    pub fn empty() -> (r: Self)
        ensures
            r.label is None,
            r.tags@.len() == 0,
            r.recent_files@.len() == 0,
            r.aiignore_patterns@.len() == 0,
    {
        SessionMetadata { label: None, tags: Vec::new(), recent_files: Vec::new(), aiignore_patterns: Vec::new() }
    }
}

/// Arguments of the session start tool.
#[derive(Debug, Clone)]
pub struct SessionInitArgs {
    pub id: String,
    /// The session's root; the current directory when absent.
    pub root: Option<String>,
    /// Create the session when it does not exist.
    pub auto_create: bool,
}

/// Arguments of the session list tool (none).
#[derive(Debug, Clone, Copy)]
pub struct SessionListArgs {}

/// Arguments of the session lookup tool.
#[derive(Debug, Clone)]
pub struct SessionGetArgs {
    /// The session; the current one when absent.
    pub id: Option<String>,
}

/// Arguments of the session update tool.
#[derive(Debug, Clone)]
pub struct SessionUpdateArgs {
    pub label: Option<String>,
    pub add_tags: Option<Vec<String>>,
    pub remove_tags: Option<Vec<String>>,
}

impl SessionInitArgs {
    /// Whether sessions are created when nothing says otherwise.
    pub fn default_true() -> (r: bool)
        ensures
            r,
    {
        true
    }
}

/// Index of the first conversation at or after `i` with identifier `id`.
pub open spec fn conversation_from(cs: Seq<ConversationContext>, id: Seq<char>, i: int) -> Option<int>
    decreases cs.len() - i,
{
    if i < 0 || i >= cs.len() {
        None
    } else if cs[i].id@ == id {
        Some(i)
    } else {
        conversation_from(cs, id, i + 1)
    }
}

/// Index of the conversation with identifier `id`, if any.
pub open spec fn conversation_index(cs: Seq<ConversationContext>, id: Seq<char>) -> Option<int> {
    conversation_from(cs, id, 0)
}

proof fn lemma_conversation_none(cs: Seq<ConversationContext>, id: Seq<char>, i: int)
    requires
        0 <= i <= cs.len(),
        conversation_from(cs, id, i) is None,
    ensures
        forall|j: int| i <= j < cs.len() ==> cs[j].id@ != id,
    decreases cs.len() - i,
{
    if i < cs.len() {
        lemma_conversation_none(cs, id, i + 1);
    }
}

/// What tracking conversation `id` does to a list of conversations: an
/// existing one keeps its identity, mode and start; a new one is appended
/// (incognito when asked, kept otherwise).  Nothing else changes.
pub open spec fn after_tracking(
    before: Seq<ConversationContext>,
    after: Seq<ConversationContext>,
    id: Seq<char>,
    mode: Option<ConversationMode>,
) -> bool {
    &&& (exists|i: int| 0 <= i < after.len() && after[i].id@ == id)
    &&& match conversation_index(before, id) {
        Some(k) => after.len() == before.len() && after[k].id == before[k].id && after[k].mode == before[k].mode
            && after[k].started == before[k].started && forall|j: int|
            0 <= j < before.len() && j != k ==> after[j] == before[j],
        None => after.len() == before.len() + 1 && after[before.len() as int].id@ == id
            && after[before.len() as int].mode == (if mode == Some(ConversationMode::Incognito) {
            ConversationMode::Incognito
        } else {
            ConversationMode::Persist
        }) && forall|j: int| 0 <= j < before.len() ==> after[j] == before[j],
    }
}

/// Records activity in conversation `id`: an existing one is touched, a
/// new one is added (incognito when asked, kept otherwise).  Other
/// conversations are unchanged and no conversation is added twice.
pub fn track_conversation(
    conversations: &mut Vec<ConversationContext>,
    id: &str,
    mode: Option<ConversationMode>,
)
    ensures
        after_tracking(old(conversations)@, final(conversations)@, id@, mode),
{
    let idc = chars_of(id);
    let mut i: usize = 0;
    while i < conversations.len()
        invariant
            i <= conversations@.len(),
            conversations@ == old(conversations)@,
            idc@ == id@,
            forall|j: int| 0 <= j < i ==> conversations@[j].id@ != id@,
            conversation_index(old(conversations)@, id@) == conversation_from(
                old(conversations)@,
                id@,
                i as int,
            ),
        decreases conversations.len() - i,
    {
        let cc = chars_of(conversations[i].id.as_str());
        if chars_eq(&cc, &idc) {
            let ghost before = conversations@;
            let mut c = conversations[i].duplicate();
            c.touch();
            conversations.set(i, c);
            assert(conversations@[i as int].id@ == id@);
            return;
        }
        i += 1;
    }
    proof {
        lemma_conversation_none(old(conversations)@, id@, 0);
    }
    let c = match mode {
        Some(ConversationMode::Incognito) => ConversationContext::new_incognito(id),
        _ => ConversationContext::new(id),
    };
    conversations.push(c);
}

/// The label a new session gets: the last component of its project root
/// when one was found, else of its working directory, else its id.
pub open spec fn label_spec(id: Seq<char>, root: Seq<char>, project_root: Option<Seq<char>>) -> Seq<char> {
    let base = match project_root {
        Some(p) => p,
        None => root,
    };
    match path_file_name(base) {
        Some(n) => n,
        None => id,
    }
}

/// The label a new session gets (see `label_spec`).
pub fn session_label(id: &str, root: &str, project_root: Option<&str>) -> (r: String)
    ensures
        r@ == label_spec(
            id@,
            root@,
            match project_root {
                Some(p) => Some(p@),
                None => None,
            },
        ),
{
    let base = match project_root {
        Some(p) => p,
        None => root,
    };
    match file_name_of(base) {
        Some(n) => n,
        None => id.to_owned(),
    }
}

/// An optional text by its characters.
pub open spec fn opt_chars(o: Option<String>) -> Option<Seq<char>> {
    match o {
        Some(s) => Some(s@),
        None => None,
    }
}

/// Two metadata records hold the same values.
pub open spec fn same_metadata(a: SessionMetadata, b: SessionMetadata) -> bool {
    &&& opt_chars(a.label) == opt_chars(b.label)
    &&& a.tags@ == b.tags@
    &&& a.recent_files@ == b.recent_files@
    &&& a.aiignore_patterns@ == b.aiignore_patterns@
}

impl SessionMetadata {
    /// An equal copy.
    pub fn duplicate(&self) -> (r: Self)
        ensures
            same_metadata(r, *self),
    {
        let label = match &self.label {
            Some(l) => Some(l.clone()),
            None => None,
        };
        let tags = self.tags.clone();
        let recent_files = self.recent_files.clone();
        let aiignore_patterns = self.aiignore_patterns.clone();
        assert(tags@ =~= self.tags@);
        assert(recent_files@ =~= self.recent_files@);
        assert(aiignore_patterns@ =~= self.aiignore_patterns@);
        SessionMetadata { label, tags, recent_files, aiignore_patterns }
    }
}

/// A working context: where the agent works, the project around it and
/// the conversations held in it.
#[derive(Debug, Clone)]
pub struct Session {
    pub id: String,
    /// Where the agent works.
    pub root: String,
    /// The project around `root`, where one was found or given.
    pub project_root: Option<String>,
    /// When it was created (RFC 3339).
    pub created_at: String,
    /// When it was last active (RFC 3339).
    pub last_active: String,
    pub conversations: Vec<ConversationContext>,
    pub metadata: SessionMetadata,
}

/// Two sessions hold the same values, but for when they were last active.
pub open spec fn same_but_activity(a: Session, b: Session) -> bool {
    &&& a.id@ == b.id@
    &&& a.root@ == b.root@
    &&& opt_chars(a.project_root) == opt_chars(b.project_root)
    &&& a.created_at@ == b.created_at@
    &&& a.conversations@ == b.conversations@
    &&& same_metadata(a.metadata, b.metadata)
}

/// Two sessions hold the same values.
pub open spec fn same_session(a: Session, b: Session) -> bool {
    same_but_activity(a, b) && a.last_active@ == b.last_active@
}

fn duplicate_conversations(v: &Vec<ConversationContext>) -> (r: Vec<ConversationContext>)
    ensures
        r@ == v@,
{
    let mut r: Vec<ConversationContext> = Vec::new();
    let mut i: usize = 0;
    while i < v.len()
        invariant
            i <= v@.len(),
            r@ == v@.subrange(0, i as int),
        decreases v.len() - i,
    {
        r.push(v[i].duplicate());
        i += 1;
        assert(r@ =~= v@.subrange(0, i as int));
    }
    assert(v@.subrange(0, v@.len() as int) =~= v@);
    r
}

impl Session {
    /// A new session in `root`, created now, with no conversations, and
    /// labelled after its project root, else its root, else its id.
    pub fn create(id: &str, root: &str, project_root: Option<&str>) -> (r: Self)
        ensures
            r.id@ == id@,
            r.root@ == root@,
            opt_chars(r.project_root) == match project_root {
                Some(p) => Some(p@),
                None => None::<Seq<char>>,
            },
            r.created_at@ == r.last_active@,
            utc_stamp(r.created_at@),
            r.conversations@.len() == 0,
            opt_chars(r.metadata.label) == Some(
                label_spec(
                    id@,
                    root@,
                    match project_root {
                        Some(p) => Some(p@),
                        None => None,
                    },
                ),
            ),
            r.metadata.tags@.len() == 0,
            r.metadata.recent_files@.len() == 0,
            r.metadata.aiignore_patterns@.len() == 0,
    {
        let label = session_label(id, root, project_root);
        let mut metadata = SessionMetadata::empty();
        metadata.label = Some(label);
        let now = now_rfc3339();
        Session {
            id: id.to_owned(),
            root: root.to_owned(),
            project_root: match project_root {
                Some(p) => Some(p.to_owned()),
                None => None,
            },
            created_at: now.clone(),
            last_active: now,
            conversations: Vec::new(),
            metadata,
        }
    }

    /// An equal copy.
    pub fn duplicate(&self) -> (r: Self)
        ensures
            same_session(r, *self),
    {
        Session {
            id: self.id.clone(),
            root: self.root.clone(),
            project_root: match &self.project_root {
                Some(p) => Some(p.clone()),
                None => None,
            },
            created_at: self.created_at.clone(),
            last_active: self.last_active.clone(),
            conversations: duplicate_conversations(&self.conversations),
            metadata: self.metadata.duplicate(),
        }
    }

    /// Marks the session active now (the current UTC time in RFC 3339
    /// form); nothing else changes.
    pub fn touch(&mut self)
        ensures
            same_but_activity(*final(self), *old(self)),
            utc_stamp(final(self).last_active@),
    {
        self.last_active = now_rfc3339();
    }

    /// Records activity in conversation `conversation_id` (see
    /// `track_conversation`) and marks the session active now.
    pub fn track(&mut self, conversation_id: &str, mode: Option<ConversationMode>)
        ensures
            final(self).id@ == old(self).id@,
            final(self).root@ == old(self).root@,
            opt_chars(final(self).project_root) == opt_chars(old(self).project_root),
            final(self).created_at@ == old(self).created_at@,
            same_metadata(final(self).metadata, old(self).metadata),
            after_tracking(old(self).conversations@, final(self).conversations@, conversation_id@, mode),
    {
        track_conversation(&mut self.conversations, conversation_id, mode);
        self.last_active = now_rfc3339();
    }

    /// The conversation `id` of this session, if it has one.
    pub fn conversation(&self, id: &str) -> (r: Option<ConversationContext>)
        ensures
            match conversation_index(self.conversations@, id@) {
                Some(j) => r == Some(self.conversations@[j]),
                None => r is None,
            },
    {
        let idc = chars_of(id);
        let mut i: usize = 0;
        while i < self.conversations.len()
            invariant
                i <= self.conversations@.len(),
                idc@ == id@,
                conversation_index(self.conversations@, id@) == conversation_from(
                    self.conversations@,
                    id@,
                    i as int,
                ),
            decreases self.conversations.len() - i,
        {
            let cc = chars_of(self.conversations[i].id.as_str());
            if chars_eq(&cc, &idc) {
                return Some(self.conversations[i].duplicate());
            }
            i += 1;
        }
        None
    }
}

/// Index of the first session at or after `i` with identifier `id`.
pub open spec fn session_from(ss: Seq<Session>, id: Seq<char>, i: int) -> Option<int>
    decreases ss.len() - i,
{
    if i < 0 || i >= ss.len() {
        None
    } else if ss[i].id@ == id {
        Some(i)
    } else {
        session_from(ss, id, i + 1)
    }
}

/// Index of the session with identifier `id`, if any.
pub open spec fn session_index(ss: Seq<Session>, id: Seq<char>) -> Option<int> {
    session_from(ss, id, 0)
}

/// The session with identifier `id`, if any.
pub open spec fn lookup(ss: Seq<Session>, id: Seq<char>) -> Option<Session> {
    match session_index(ss, id) {
        Some(k) => Some(ss[k]),
        None => None,
    }
}

/// The sessions after `s` is stored: it replaces the session with its
/// identifier, or is added after the others.
pub open spec fn upserted(ss: Seq<Session>, s: Session) -> Seq<Session> {
    match session_index(ss, s.id@) {
        Some(k) => ss.update(k, s),
        None => ss.push(s),
    }
}

proof fn lemma_session_from(ss: Seq<Session>, id: Seq<char>, i: int)
    requires
        0 <= i <= ss.len(),
    ensures
        match session_from(ss, id, i) {
            Some(k) => i <= k < ss.len() && ss[k].id@ == id && forall|j: int| i <= j < k ==> ss[j].id@ != id,
            None => forall|j: int| i <= j < ss.len() ==> ss[j].id@ != id,
        },
    decreases ss.len() - i,
{
    if i < ss.len() {
        lemma_session_from(ss, id, i + 1);
    }
}

proof fn lemma_session_from_same_ids(a: Seq<Session>, b: Seq<Session>, id: Seq<char>, i: int)
    requires
        0 <= i <= a.len(),
        a.len() == b.len(),
        forall|j: int| 0 <= j < a.len() ==> (#[trigger] a[j]).id@ == b[j].id@,
    ensures
        session_from(a, id, i) == session_from(b, id, i),
    decreases a.len() - i,
{
    if i < a.len() {
        lemma_session_from_same_ids(a, b, id, i + 1);
    }
}

proof fn lemma_session_from_push(ss: Seq<Session>, s: Session, id: Seq<char>, i: int)
    requires
        0 <= i <= ss.len(),
    ensures
        session_from(ss.push(s), id, i) == match session_from(ss, id, i) {
            Some(k) => Some(k),
            None => if s.id@ == id {
                Some(ss.len() as int)
            } else {
                None
            },
        },
    decreases ss.len() - i,
{
    let t = ss.push(s);
    if i < ss.len() {
        assert(t[i] == ss[i]);
        lemma_session_from_push(ss, s, id, i + 1);
    } else {
        assert(t[i] == s);
        assert(session_from(t, id, i + 1) is None);
    }
}

/// Once stored, a session is what a lookup of its identifier gives back,
/// and a lookup of any other identifier gives what it gave before.
pub proof fn law_lookup_after_store(ss: Seq<Session>, s: Session, other: Seq<char>)
    ensures
        lookup(upserted(ss, s), s.id@) == Some(s),
        other != s.id@ ==> lookup(upserted(ss, s), other) == lookup(ss, other),
{
    let id = s.id@;
    let t = upserted(ss, s);
    lemma_session_from(ss, id, 0);
    lemma_session_from(ss, other, 0);
    match session_index(ss, id) {
        Some(k) => {
            assert forall|j: int| 0 <= j < ss.len() implies (#[trigger] ss[j]).id@ == t[j].id@ by {
                if j == k {
                    assert(t[j] == s);
                } else {
                    assert(t[j] == ss[j]);
                }
            }
            lemma_session_from_same_ids(ss, t, id, 0);
            lemma_session_from_same_ids(ss, t, other, 0);
            if other != id {
                match session_index(ss, other) {
                    Some(m) => {
                        assert(m != k);
                        assert(t[m] == ss[m]);
                    },
                    None => {},
                }
            }
        },
        None => {
            lemma_session_from_push(ss, s, id, 0);
            lemma_session_from_push(ss, s, other, 0);
            match session_index(ss, other) {
                Some(m) => {
                    assert(t[m] == ss[m]);
                },
                None => {},
            }
        },
    }
}

/// No identifier occurs twice.
pub open spec fn unique_ids(ss: Seq<Session>) -> bool {
    forall|i: int, j: int| 0 <= i < j < ss.len() ==> #[trigger] ss[i].id@ != #[trigger] ss[j].id@
}

/// Storing a session keeps the identifiers unique.
pub proof fn law_store_keeps_ids_unique(ss: Seq<Session>, s: Session)
    requires
        unique_ids(ss),
    ensures
        unique_ids(upserted(ss, s)),
{
    let t = upserted(ss, s);
    lemma_session_from(ss, s.id@, 0);
    match session_index(ss, s.id@) {
        Some(k) => {
            assert forall|i: int, j: int| 0 <= i < j < t.len() implies #[trigger] t[i].id@ != #[trigger] t[j].id@ by {
                assert(t[i].id@ == ss[i].id@);
                assert(t[j].id@ == ss[j].id@);
            }
        },
        None => {
            assert forall|i: int, j: int| 0 <= i < j < t.len() implies #[trigger] t[i].id@ != #[trigger] t[j].id@ by {
                if j == ss.len() {
                    assert(t[i] == ss[i]);
                } else {
                    assert(t[i] == ss[i] && t[j] == ss[j]);
                }
            }
        },
    }
}

/// The sessions known across runs, each under its identifier.
#[derive(Debug, Clone)]
pub struct SessionStore {
    /// The sessions, in the order they were first stored; no identifier
    /// occurs twice (`unique_ids`), which every operation below keeps.
    pub sessions: Vec<Session>,
}

impl Default for SessionStore {
    /// A store of no sessions.
    fn default() -> (r: Self)
        ensures
            r.sessions@.len() == 0,
            unique_ids(r.sessions@),
    {
        SessionStore { sessions: Vec::new() }
    }
}

impl SessionStore {
    /// Position of the session `id`.
    fn position(&self, id: &str) -> (r: Option<usize>)
        ensures
            match session_index(self.sessions@, id@) {
                Some(k) => r matches Some(i) && i == k && k < self.sessions@.len(),
                None => r is None,
            },
    {
        let idc = chars_of(id);
        let mut i: usize = 0;
        while i < self.sessions.len()
            invariant
                i <= self.sessions@.len(),
                idc@ == id@,
                session_index(self.sessions@, id@) == session_from(self.sessions@, id@, i as int),
            decreases self.sessions.len() - i,
        {
            let sc = chars_of(self.sessions[i].id.as_str());
            if chars_eq(&sc, &idc) {
                return Some(i);
            }
            i += 1;
        }
        None
    }

    /// The session `id`, if the store holds one.
    pub fn get(&self, id: &str) -> (r: Option<&Session>)
        ensures
            match lookup(self.sessions@, id@) {
                Some(s) => r matches Some(x) && *x == s,
                None => r is None,
            },
    {
        match self.position(id) {
            Some(k) => Some(&self.sessions[k]),
            None => None,
        }
    }

    /// Stores `session` under its identifier, in place of the session it
    /// had (see `upserted`).
    pub fn update_session(&mut self, session: Session)
        ensures
            final(self).sessions@ == upserted(old(self).sessions@, session),
            unique_ids(old(self).sessions@) ==> unique_ids(final(self).sessions@),
    {
        proof {
            if unique_ids(self.sessions@) {
                law_store_keeps_ids_unique(self.sessions@, session);
            }
        }
        match self.position(session.id.as_str()) {
            Some(k) => {
                self.sessions.set(k, session);
            },
            None => {
                self.sessions.push(session);
            },
        }
    }
    /// Marks the session `id` active now and gives a copy of it; nothing
    /// when the store holds no such session.  Other sessions are unchanged.
    pub fn resume(&mut self, id: &str) -> (r: Option<Session>)
        ensures
            match lookup(old(self).sessions@, id@) {
                None => r is None && final(self).sessions@ == old(self).sessions@,
                Some(s) => r matches Some(x) && same_but_activity(x, s) && (lookup(final(self).sessions@, id@) matches Some(
                    y,
                ) && same_session(y, x)),
            },
            forall|o: Seq<char>|
                o != id@ ==> #[trigger] lookup(final(self).sessions@, o) == lookup(old(self).sessions@, o),
            unique_ids(old(self).sessions@) ==> unique_ids(final(self).sessions@),
    {
        proof {
            lemma_session_from(self.sessions@, id@, 0);
        }
        match self.position(id) {
            None => None,
            Some(k) => {
                let mut s = self.sessions[k].duplicate();
                s.touch();
                let stored = s.duplicate();
                let ghost g = stored;
                let ghost before = self.sessions@;
                self.update_session(stored);
                proof {
                    law_lookup_after_store(before, g, id@);
                    assert forall|o: Seq<char>| o != id@ implies #[trigger] lookup(self.sessions@, o) == lookup(
                        before,
                        o,
                    ) by {
                        law_lookup_after_store(before, g, o);
                    }
                }
                Some(s)
            },
        }
    }

    /// Records activity in conversation `conversation_id` of session
    /// `session_id` (see `Session::track`); nothing when the store holds no
    /// such session.  Other sessions are unchanged.
    pub fn track_conversation(&mut self, session_id: &str, conversation_id: &str, mode: Option<ConversationMode>)
        ensures
            match lookup(old(self).sessions@, session_id@) {
                None => final(self).sessions@ == old(self).sessions@,
                Some(s) => lookup(final(self).sessions@, session_id@) matches Some(y) && y.id@ == s.id@ && y.root@
                    == s.root@ && opt_chars(y.project_root) == opt_chars(s.project_root) && y.created_at@
                    == s.created_at@ && same_metadata(y.metadata, s.metadata) && after_tracking(
                    s.conversations@,
                    y.conversations@,
                    conversation_id@,
                    mode,
                ),
            },
            forall|o: Seq<char>|
                o != session_id@ ==> #[trigger] lookup(final(self).sessions@, o) == lookup(old(self).sessions@, o),
            unique_ids(old(self).sessions@) ==> unique_ids(final(self).sessions@),
    {
        proof {
            lemma_session_from(self.sessions@, session_id@, 0);
        }
        match self.position(session_id) {
            None => {},
            Some(k) => {
                let mut s = self.sessions[k].duplicate();
                s.track(conversation_id, mode);
                let ghost g = s;
                let ghost before = self.sessions@;
                self.update_session(s);
                proof {
                    law_lookup_after_store(before, g, session_id@);
                    assert forall|o: Seq<char>| o != session_id@ implies #[trigger] lookup(self.sessions@, o)
                        == lookup(before, o) by {
                        law_lookup_after_store(before, g, o);
                    }
                }
            },
        }
    }

    /// Conversation `conversation_id` of session `session_id`, if both
    /// exist.
    pub fn get_conversation(&self, session_id: &str, conversation_id: &str) -> (r: Option<ConversationContext>)
        ensures
            match lookup(self.sessions@, session_id@) {
                None => r is None,
                Some(s) => match conversation_index(s.conversations@, conversation_id@) {
                    Some(j) => r == Some(s.conversations@[j]),
                    None => r is None,
                },
            },
    {
        match self.get(session_id) {
            Some(s) => s.conversation(conversation_id),
            None => None,
        }
    }
}

} // verus!
