//! Sessions: the recent ones in full, the older ones as summaries.

use crate::json;
use crate::json::{json_parsed, Json, JsonView};
use crate::runtime::{dialogue_view, DialogueTurn, DialogueView};
use crate::text;
use crate::text::{decimal, join, opt_text, prefix_of, repeated, trim, views};
use crate::util;
use crate::util::object_in;
use vstd::prelude::*;

verus! {

/// The sessions that are kept in full at most.
pub const MAX_FULL_SESSIONS: usize = 15;

/// What the archivist is told when a session is archived.
pub const ARCHIVE_PROMPT: &'static str = "You are an archivist. When a session is archived, it must leave a durable memory: a summary plus highlights that future sessions can recall. The summary is read weeks later by an agent that never saw this conversation; it must stand on its own.\n\n# Task\nSummarize the conversation and extract highlights worth remembering.\n\n# Output\nReply with JSON only, no other text:\n{\"summary\": \"<concise summary>\", \"highlights\": [\"<key fact>\"]}\n\n# Rules\n- summary: the whole session in a few sentences — what happened, what was decided, what was built, and where the work stands.\n- highlights: concrete facts, decisions, preferences, and open threads worth recalling later; 2-5 items, each specific enough to act on (\"user prefers Chinese replies\" over \"user preferences\").\n- Do not invent details not present in the transcript.\n- Do not include greetings or chit-chat.";

/// What the archivist is told when a conversation is compressed.
pub const COMPACT_PROMPT: &'static str = "You are an archivist. The conversation context must be compressed so the agent can continue without losing important information. This summary is the only thing the agent will remember about the earlier conversation, so completeness of decisions matters more than brevity.\n\n# Task\nCompress the conversation into a single summary paragraph.\n\n# Rules\n- Keep: topic flow, resolved items, user preferences, open questions, current task state, decisions and their reasons, concrete facts (names, numbers, paths).\n- Drop: greetings, chit-chat, tool call details, repeated restatements.\n- Preserve the language of the conversation; if the conversation mixes languages, follow the dominant one.\n- Do not invent anything not present in the conversation; if something is unresolved, say it is unresolved rather than smoothing it over.\n- Aim for one dense paragraph (roughly 5-15 sentences depending on conversation size); the goal is that a reader who never saw the conversation can continue the work from this paragraph alone.\n- Reply with the summary text only, no preface, no JSON.";

// ---------------------------------------------------------------------------------------------
// Turns
// ---------------------------------------------------------------------------------------------
/// What one side said.
#[derive(Debug, Clone, PartialEq)]
pub struct ConversationTurn {
    pub role: String,
    pub content: String,
}

/// A `ConversationTurn` with its texts as characters.
pub ghost struct TurnView {
    pub role: Seq<char>,
    pub content: Seq<char>,
}

impl View for ConversationTurn {
    type V = TurnView;

    open spec fn view(&self) -> TurnView {
        TurnView { role: self.role@, content: self.content@ }
    }
}

/// The views of turns.
pub open spec fn turns_view(turns: Seq<ConversationTurn>) -> Seq<TurnView> {
    Seq::new(turns.len(), |i: int| turns[i]@)
}

/// The turns as lines, each behind the one who spoke.
pub open spec fn turn_lines(turns: Seq<TurnView>) -> Seq<Seq<char>> {
    Seq::new(turns.len(), |i: int| turns[i].role + ": "@ + turns[i].content)
}

/// The turns as one text.
pub open spec fn transcript_of(turns: Seq<TurnView>) -> Seq<char> {
    join(turn_lines(turns), "\n"@)
}

/// The turns as one text.
pub fn transcript(turns: &Vec<ConversationTurn>) -> (r: String)
    ensures
        r@ == transcript_of(turns_view(turns@)),
{
    let ghost goal = turn_lines(turns_view(turns@));
    let mut lines: Vec<String> = Vec::new();
    let mut i: usize = 0;
    assert(views(lines@) =~= goal.take(0));
    while i < turns.len()
        invariant
            i <= turns@.len(),
            goal == turn_lines(turns_view(turns@)),
            views(lines@) == goal.take(i as int),
        decreases turns@.len() - i,
    {
        assert(turns_view(turns@)[i as int] == turns@[i as int]@);
        let ghost before = views(lines@);
        let line = text::glue3(turns[i].role.as_str(), ": ", turns[i].content.as_str());
        lines.push(line);
        proof {
            assert(views(lines@) =~= before.push(line@));
            assert(goal.take(i + 1) =~= goal.take(i as int).push(goal[i as int]));
        }
        i += 1;
    }
    assert(goal.take(i as int) =~= goal);
    text::joined_strings(&lines, "\n")
}

/// A dialogue as far as it has been put together: the turns so far, what the user said last, and what
/// was answered since.
pub ghost struct Pairing {
    pub done: Seq<DialogueView>,
    pub user: Option<Seq<char>>,
    pub parts: Seq<Seq<char>>,
}

/// The turns with the one that is open, if it was answered.
pub open spec fn closed(pairing: Pairing) -> Seq<DialogueView> {
    match pairing.user {
        Some(user) => if pairing.parts.len() > 0 {
            pairing.done.push(DialogueView { user, assistant: join(pairing.parts, "\n"@) })
        } else {
            pairing.done
        },
        None => pairing.done,
    }
}

/// A dialogue after one more turn. What the user says begins a new turn; an answer joins the open one
/// unless it is blank; other voices are left out.
pub open spec fn pair_step(pairing: Pairing, turn: TurnView) -> Pairing {
    if turn.role == "user"@ {
        Pairing { done: closed(pairing), user: Some(turn.content), parts: Seq::empty() }
    } else if turn.role == "assistant"@ && pairing.user is Some && trim(turn.content).len() > 0 {
        Pairing { parts: pairing.parts.push(turn.content), ..pairing }
    } else {
        pairing
    }
}

/// The dialogue of the first `n` turns.
pub open spec fn paired(turns: Seq<TurnView>, n: int) -> Pairing
    decreases n,
{
    if n <= 0 {
        Pairing { done: Seq::empty(), user: None, parts: Seq::empty() }
    } else {
        pair_step(paired(turns, n - 1), turns[n - 1])
    }
}

/// Closes the turn that is open, if it was answered.
fn close_turn(done: &mut Vec<DialogueTurn>, user: Option<String>, parts: &Vec<String>)
    ensures
        dialogue_view(final(done)@) == closed(
            Pairing { done: dialogue_view(old(done)@), user: opt_text(user), parts: views(parts@) },
        ),
{
    assert(views(parts@).len() == parts@.len());
    if let Some(user) = user {
        if parts.len() > 0 {
            let ghost before = dialogue_view(done@);
            let turn = DialogueTurn { user, assistant: text::joined_strings(parts, "\n") };
            done.push(turn);
            assert(dialogue_view(done@) =~= before.push(turn@));
        }
    }
}

/// A session as a dialogue: what the user said, with all that was answered.
pub fn pair_dialogue(turns: &Vec<ConversationTurn>) -> (r: Vec<DialogueTurn>)
    ensures
        dialogue_view(r@) == closed(paired(turns_view(turns@), turns@.len() as int)),
{
    let ghost all = turns_view(turns@);
    let mut done: Vec<DialogueTurn> = Vec::new();
    let mut user: Option<String> = None;
    let mut parts: Vec<String> = Vec::new();
    let mut i: usize = 0;
    proof {
        assert(dialogue_view(done@) =~= Seq::empty());
        assert(views(parts@) =~= Seq::empty());
    }
    while i < turns.len()
        invariant
            i <= turns@.len(),
            all == turns_view(turns@),
            paired(all, i as int) == (Pairing {
                done: dialogue_view(done@),
                user: opt_text(user),
                parts: views(parts@),
            }),
        decreases turns@.len() - i,
    {
        let turn = &turns[i];
        assert(all[i as int] == turn@);
        if text::same(turn.role.as_str(), "user") {
            close_turn(&mut done, user, &parts);
            user = Some(turn.content.clone());
            parts = Vec::new();
            assert(views(parts@) =~= Seq::empty());
        } else if text::same(turn.role.as_str(), "assistant") && user.is_some() && text::trimmed(
            text::chars_of(turn.content.as_str()).as_slice(),
        ).len() > 0 {
            let ghost before = views(parts@);
            parts.push(turn.content.clone());
            assert(views(parts@) =~= before.push(turn.content@));
        }
        i += 1;
    }
    close_turn(&mut done, user, &parts);
    done
}

/// No dialogue turn is without an answer.
pub proof fn every_turn_is_answered(turns: Seq<TurnView>, n: int)
    ensures
        forall|i: int|
            0 <= i < closed(paired(turns, n)).len() ==> (#[trigger] closed(
                paired(turns, n),
            )[i]).assistant.len() > 0,
        forall|i: int|
            0 <= i < paired(turns, n).parts.len() ==> (#[trigger] paired(turns, n).parts[i]).len()
                > 0,
        forall|i: int|
            0 <= i < paired(turns, n).done.len() ==> (#[trigger] paired(
                turns,
                n,
            ).done[i]).assistant.len() > 0,
    decreases n,
{
    if n > 0 {
        every_turn_is_answered(turns, n - 1);
        let before = paired(turns, n - 1);
        let turn = turns[n - 1];
        if turn.content.len() == 0 {
            assert(trim(turn.content).len() == 0);
        }
        assert(paired(turns, n) == pair_step(before, turn));
    }
    let now = paired(turns, n);
    if now.parts.len() > 0 {
        joined_parts(now.parts);
    }
}

proof fn joined_parts(parts: Seq<Seq<char>>)
    requires
        parts.len() > 0,
        forall|i: int| 0 <= i < parts.len() ==> (#[trigger] parts[i]).len() > 0,
    ensures
        join(parts, "\n"@).len() > 0,
{
    assert(parts[parts.len() - 1].len() > 0);
    assert(parts.last() == parts[parts.len() - 1]);
}

// ---------------------------------------------------------------------------------------------
// Sessions
// ---------------------------------------------------------------------------------------------
/// What is known of a session: when it began, how it began, and how many turns it has.
#[derive(Debug, Clone, PartialEq)]
pub struct SessionMeta {
    pub id: String,
    pub created: String,
    pub summary: String,
    pub turns: usize,
}

/// A `SessionMeta` with its texts as characters.
pub ghost struct MetaView {
    pub id: Seq<char>,
    pub created: Seq<char>,
    pub summary: Seq<char>,
    pub turns: usize,
}

impl View for SessionMeta {
    type V = MetaView;

    open spec fn view(&self) -> MetaView {
        MetaView {
            id: self.id@,
            created: self.created@,
            summary: self.summary@,
            turns: self.turns,
        }
    }
}

impl SessionMeta {
    /// A copy of what is known.
    pub fn duplicate(&self) -> (r: SessionMeta)
        ensures
            r@ == self@,
    {
        SessionMeta {
            id: self.id.clone(),
            created: self.created.clone(),
            summary: self.summary.clone(),
            turns: self.turns,
        }
    }
}

/// The views of sessions.
pub open spec fn sessions_view(sessions: Seq<SessionMeta>) -> Seq<MetaView> {
    Seq::new(sessions.len(), |i: int| sessions[i]@)
}

/// A session that is kept as a summary only.
#[derive(Debug, Clone, PartialEq)]
pub struct ArchiveEntry {
    pub id: String,
    pub summary: String,
    pub highlights: Vec<String>,
    pub archived_at: String,
}

/// An `ArchiveEntry` with its texts as characters.
pub ghost struct ArchivedView {
    pub id: Seq<char>,
    pub summary: Seq<char>,
    pub highlights: Seq<Seq<char>>,
    pub archived_at: Seq<char>,
}

impl View for ArchiveEntry {
    type V = ArchivedView;

    open spec fn view(&self) -> ArchivedView {
        ArchivedView {
            id: self.id@,
            summary: self.summary@,
            highlights: views(self.highlights@),
            archived_at: self.archived_at@,
        }
    }
}

/// The views of archived sessions.
pub open spec fn archive_view(entries: Seq<ArchiveEntry>) -> Seq<ArchivedView> {
    Seq::new(entries.len(), |i: int| entries[i]@)
}

/// The position of the first session with a name, from `i` on.
pub open spec fn session_from(sessions: Seq<MetaView>, id: Seq<char>, i: int) -> Option<int>
    decreases sessions.len() - i,
{
    if i < 0 || i >= sessions.len() {
        None
    } else if sessions[i].id == id {
        Some(i)
    } else {
        session_from(sessions, id, i + 1)
    }
}

/// The last of the first `n` sessions that has another name.
pub open spec fn other_session(sessions: Seq<MetaView>, id: Option<Seq<char>>, n: int) -> Option<
    Seq<char>,
>
    decreases n,
{
    if n <= 0 {
        None
    } else if Some(sessions[n - 1].id) != id {
        Some(sessions[n - 1].id)
    } else {
        other_session(sessions, id, n - 1)
    }
}

/// The first archived session with a name, from `i` on.
pub open spec fn archived_from(entries: Seq<ArchivedView>, id: Seq<char>, i: int) -> Option<ArchivedView>
    decreases entries.len() - i,
{
    if i < 0 || i >= entries.len() {
        None
    } else if entries[i].id == id {
        Some(entries[i])
    } else {
        archived_from(entries, id, i + 1)
    }
}

/// The name of session `n`: its number with four digits at least.
pub open spec fn session_name(n: nat) -> Seq<char> {
    let digits = decimal(n);
    "s"@ + if digits.len() < 4 {
        repeated('0', (4 - digits.len()) as nat) + digits
    } else {
        digits
    }
}

/// A session after one more turn, which has `turns` in all then. What the user says first becomes its
/// summary.
pub open spec fn after_turn(meta: MetaView, turns: usize, role: Seq<char>, content: Seq<char>) -> MetaView {
    MetaView {
        turns,
        summary: if role == "user"@ && meta.summary.len() == 0 {
            prefix_of(content, 60)
        } else {
            meta.summary
        },
        ..meta
    }
}

/// The sessions with one that is listed once.
pub open spec fn listed(sessions: Seq<MetaView>, meta: MetaView) -> Seq<MetaView> {
    if session_from(sessions, meta.id, 0) is Some {
        sessions
    } else {
        sessions.push(meta)
    }
}

/// Whether a turn was added to the session that is going on, which had `turns` so far and has `r`
/// then. Without a session, nothing happens.
pub open spec fn turn_added(
    before: Remember,
    after: Remember,
    role: Seq<char>,
    content: Seq<char>,
    turns: Seq<TurnView>,
    r: Option<Vec<ConversationTurn>>,
) -> bool {
    &&& after.archive == before.archive
    &&& after.current == before.current
    &&& match before.now() {
        Some(meta) => {
            let all = listed(before.full(), meta);
            let at = session_from(all, meta.id, 0);
            &&& r matches Some(now) && turns_view(now@) == turns.push(TurnView { role, content })
            &&& at is Some
            &&& after.full() == all.update(
                at->0,
                after_turn(all[at->0], (turns.len() + 1) as usize, role, content),
            )
        },
        None => r is None && after.sessions == before.sessions,
    }
}

/// Whether the agent goes on with a session that is kept in full. If there is none with that name, it
/// goes on as before.
pub open spec fn made_current(before: Remember, after: Remember, id: Seq<char>) -> bool {
    &&& after.sessions == before.sessions
    &&& after.archive == before.archive
    &&& match session_from(before.full(), id, 0) {
        Some(i) => after.now() == Some(before.full()[i]),
        None => after.current == before.current,
    }
}

/// The memory of an archived session as it is given to the agent.
pub open spec fn memory_text(entry: ArchivedView) -> Seq<char> {
    let head = "(Memory: #"@ + entry.id + ")\n"@ + entry.summary;
    if entry.highlights.len() == 0 {
        head
    } else {
        head + "\nhighlights: "@ + join(entry.highlights, ", "@)
    }
}

/// The sessions, and the one that is going on.
pub struct Remember {
    pub sessions: Vec<SessionMeta>,
    pub archive: Vec<ArchiveEntry>,
    pub current: Option<SessionMeta>,
}

/// What a new session brings: its name, and the session that leaves for the archive.
pub struct Started {
    pub id: String,
    pub oldest: Option<SessionMeta>,
}

/// A `Started` with its texts as characters.
pub ghost struct StartedView {
    pub id: Seq<char>,
    pub oldest: Option<MetaView>,
}

impl View for Started {
    type V = StartedView;

    open spec fn view(&self) -> StartedView {
        StartedView {
            id: self.id@,
            oldest: match self.oldest {
                Some(meta) => Some(meta@),
                None => None,
            },
        }
    }
}

/// Whether a session was begun. If there is no room for it, the oldest one leaves for the archive.
pub open spec fn session_started(
    before: Remember,
    after: Remember,
    created: Seq<char>,
    started: StartedView,
) -> bool {
    &&& started.id == session_name((before.sessions@.len() + before.archive@.len() + 1) as nat)
    &&& after.archive == before.archive
    &&& after.now() == Some(
        MetaView { id: started.id, created, summary: Seq::empty(), turns: 0 },
    )
    &&& match started.oldest {
        Some(oldest) => before.sessions@.len() >= MAX_FULL_SESSIONS && oldest == before.full()[0]
            && after.full() == before.full().skip(1),
        None => before.sessions@.len() < MAX_FULL_SESSIONS && after.full() == before.full(),
    }
}

impl Remember {
    /// The sessions that are kept in full.
    pub open spec fn full(self) -> Seq<MetaView> {
        sessions_view(self.sessions@)
    }

    /// The session that is going on.
    pub open spec fn now(self) -> Option<MetaView> {
        match self.current {
            Some(meta) => Some(meta@),
            None => None,
        }
    }

    /// No more sessions are kept in full than the limit, and there is room for the one that is going
    /// on.
    pub open spec fn wf(self) -> bool {
        &&& self.sessions@.len() <= MAX_FULL_SESSIONS
        &&& self.now() matches Some(meta) ==> session_from(self.full(), meta.id, 0) is Some
            || self.sessions@.len() < MAX_FULL_SESSIONS
    }

    /// Sessions as they were left, with none going on.
    pub fn new(sessions: Vec<SessionMeta>, archive: Vec<ArchiveEntry>) -> (r: Self)
        ensures
            r.sessions == sessions,
            r.archive == archive,
            r.current is None,
            sessions@.len() <= MAX_FULL_SESSIONS ==> r.wf(),
    {
        Remember { sessions, archive, current: None }
    }

    /// The name of the next session.
    fn next_id(&self) -> (r: String)
        requires
            self.sessions@.len() + self.archive@.len() < u64::MAX,
        ensures
            r@ == session_name((self.sessions@.len() + self.archive@.len() + 1) as nat),
    {
        let count: u64 = self.sessions.len() as u64 + self.archive.len() as u64 + 1;
        let digits = text::decimal_of(count as u128);
        let shown = text::string_of(digits.as_slice());
        if digits.len() < 4 {
            let zeros = text::repeat_char('0', 4 - digits.len());
            text::glue("s", text::glue(zeros.as_str(), shown.as_str()).as_str())
        } else {
            text::glue("s", shown.as_str())
        }
    }

    /// The name of the session that is going on.
    pub fn current_session(&self) -> (r: Option<&str>)
        ensures
            match r {
                Some(id) => self.now() matches Some(meta) && meta.id == id@,
                None => self.now() is None,
            },
    {
        match &self.current {
            Some(meta) => Some(meta.id.as_str()),
            None => None,
        }
    }

    /// Begins a session. If there is no room for it, the oldest one leaves for the archive.
    pub fn start_session(&mut self, created: &str) -> (r: Started)
        requires
            old(self).sessions@.len() + old(self).archive@.len() < u64::MAX,
        ensures
            session_started(*old(self), *final(self), created@, r@),
            old(self).sessions@.len() <= MAX_FULL_SESSIONS ==> final(self).wf(),
    {
        let id = self.next_id();
        let ghost before = self.full();
        let oldest = if self.sessions.len() >= MAX_FULL_SESSIONS {
            assert(before[0] == self.sessions@[0]@);
            let oldest = self.sessions.remove(0);
            assert(self.full() =~= before.skip(1));
            Some(oldest)
        } else {
            None
        };
        let summary = String::new();
        assert(summary@ =~= Seq::<char>::empty());
        self.current = Some(
            SessionMeta { id: id.clone(), created: created.to_owned(), summary, turns: 0 },
        );
        Started { id, oldest }
    }

    /// Keeps a session as a summary.
    pub fn keep_archived(&mut self, entry: ArchiveEntry)
        ensures
            archive_view(final(self).archive@) == archive_view(old(self).archive@).push(entry@),
            final(self).sessions == old(self).sessions,
            final(self).current == old(self).current,
    {
        let ghost before = archive_view(self.archive@);
        self.archive.push(entry);
        assert(archive_view(self.archive@) =~= before.push(entry@));
    }

    /// Adds a turn to the session that is going on. `turns` are those that it has so far; what it has
    /// then is given back. Without a session, nothing happens.
    pub fn append_turn(&mut self, role: &str, content: &str, turns: Vec<ConversationTurn>) -> (r:
        Option<Vec<ConversationTurn>>)
        requires
            turns@.len() < usize::MAX,
        ensures
            turn_added(*old(self), *final(self), role@, content@, turns_view(turns@), r),
            old(self).wf() ==> final(self).wf(),
    {
        let (id, meta) = match &self.current {
            Some(meta) => (meta.id.clone(), meta.duplicate()),
            None => return None,
        };
        let ghost start = self.full();
        let ghost view = meta@;
        let ghost before = turns_view(turns@);
        let mut turns = turns;
        let turn = ConversationTurn { role: role.to_owned(), content: content.to_owned() };
        turns.push(turn);
        assert(turns_view(turns@) =~= before.push(turn@));
        if self.find_session(id.as_str()).is_none() {
            self.sessions.push(meta);
            assert(self.full() =~= start.push(view));
            proof {
                session_from_is_first(start.push(view), view.id, 0);
                assert(start.push(view)[start.len() as int].id == view.id);
            }
        }
        let ghost all = self.full();
        assert(all == listed(start, view));
        if let Some(i) = self.find_session(id.as_str()) {
            assert(all[i as int] == self.sessions@[i as int]@);
            self.sessions[i].turns = turns.len();
            if text::same(role, "user") && self.sessions[i].summary.as_str().is_empty()
                && !content.is_empty() {
                self.sessions[i].summary = text::first_chars(content, 60);
            }
            proof {
                if content@.len() == 0 {
                    assert(content@ =~= Seq::<char>::empty());
                    assert(prefix_of(content@, 60) =~= all[i as int].summary
                        || all[i as int].summary.len() > 0);
                }
                let now = after_turn(all[i as int], turns.len(), role@, content@);
                assert(self.sessions@[i as int]@ == now);
                assert(self.full() =~= all.update(i as int, now));
                session_from_is_first(self.full(), view.id, 0);
                assert(self.full()[i as int].id == view.id);
            }
        }
        Some(turns)
    }

    /// The position of a session.
    fn find_session(&self, id: &str) -> (r: Option<usize>)
        ensures
            match r {
                Some(i) => session_from(self.full(), id@, 0) == Some(i as int) && i
                    < self.sessions@.len() && self.full()[i as int].id == id@,
                None => session_from(self.full(), id@, 0) is None,
            },
    {
        let ghost all = self.full();
        let mut i: usize = 0;
        while i < self.sessions.len()
            invariant
                i <= self.sessions@.len(),
                all == self.full(),
                session_from(all, id@, 0) == session_from(all, id@, i as int),
            decreases self.sessions@.len() - i,
        {
            assert(all[i as int] == self.sessions@[i as int]@);
            if text::same(self.sessions[i].id.as_str(), id) {
                return Some(i);
            }
            i += 1;
        }
        None
    }

    /// The sessions that are kept in full.
    pub fn list_sessions(&self) -> (r: &Vec<SessionMeta>)
        ensures
            *r == self.sessions,
    {
        &self.sessions
    }

    /// The sessions that are kept as summaries.
    pub fn archive(&self) -> (r: &Vec<ArchiveEntry>)
        ensures
            *r == self.archive,
    {
        &self.archive
    }

    /// Goes on with a session that is kept in full, and says whether there is one with that name.
    pub fn set_current(&mut self, id: &str) -> (r: bool)
        ensures
            r == (session_from(old(self).full(), id@, 0) is Some),
            made_current(*old(self), *final(self), id@),
            old(self).wf() ==> final(self).wf(),
    {
        match self.find_session(id) {
            Some(i) => {
                assert(self.full()[i as int] == self.sessions@[i as int]@);
                self.current = Some(self.sessions[i].duplicate());
                true
            },
            None => false,
        }
    }

    /// The latest session but the one that is going on.
    pub fn previous_session(&self) -> (r: Option<String>)
        ensures
            opt_text(r) == other_session(
                self.full(),
                match self.now() {
                    Some(meta) => Some(meta.id),
                    None => None,
                },
                self.sessions@.len() as int,
            ),
    {
        let ghost all = self.full();
        let ghost id = match self.now() {
            Some(meta) => Some(meta.id),
            None => None,
        };
        let mut n: usize = self.sessions.len();
        while n > 0
            invariant
                n <= self.sessions@.len(),
                all == self.full(),
                id == (match self.now() {
                    Some(meta) => Some(meta.id),
                    None => None,
                }),
                other_session(all, id, self.sessions@.len() as int) == other_session(
                    all,
                    id,
                    n as int,
                ),
            decreases n,
        {
            assert(all[n - 1] == self.sessions@[n - 1]@);
            let other = match &self.current {
                Some(meta) => !text::same(self.sessions[n - 1].id.as_str(), meta.id.as_str()),
                None => true,
            };
            if other {
                return Some(self.sessions[n - 1].id.clone());
            }
            n -= 1;
        }
        None
    }

    /// The memory of an archived session as it is given to the agent.
    pub fn recall(&self, id: &str) -> (r: Option<String>)
        ensures
            opt_text(r) == match archived_from(archive_view(self.archive@), id@, 0) {
                Some(entry) => Some(memory_text(entry)),
                None => None,
            },
    {
        let ghost all = archive_view(self.archive@);
        let mut i: usize = 0;
        while i < self.archive.len()
            invariant
                i <= self.archive@.len(),
                all == archive_view(self.archive@),
                archived_from(all, id@, 0) == archived_from(all, id@, i as int),
            decreases self.archive@.len() - i,
        {
            let entry = &self.archive[i];
            assert(all[i as int] == entry@);
            if text::same(entry.id.as_str(), id) {
                let mut memory = text::glue3("(Memory: #", entry.id.as_str(), ")\n");
                memory.append(entry.summary.as_str());
                assert(entry@.highlights.len() == entry.highlights@.len());
                if entry.highlights.len() > 0 {
                    memory.append("\nhighlights: ");
                    memory.append(text::joined_strings(&entry.highlights, ", ").as_str());
                }
                return Some(memory);
            }
            i += 1;
        }
        None
    }
}

proof fn session_from_is_first(sessions: Seq<MetaView>, id: Seq<char>, i: int)
    requires
        0 <= i <= sessions.len(),
    ensures
        match session_from(sessions, id, i) {
            Some(k) => i <= k < sessions.len() && sessions[k].id == id,
            None => forall|k: int| i <= k < sessions.len() ==> (#[trigger] sessions[k]).id != id,
        },
    decreases sessions.len() - i,
{
    if i < sessions.len() && sessions[i].id != id {
        session_from_is_first(sessions, id, i + 1);
    }
}

// ---------------------------------------------------------------------------------------------
// Summaries
// ---------------------------------------------------------------------------------------------
/// The texts among the first `n` items of a list.
pub open spec fn texts_of(items: Seq<JsonView>, n: int) -> Seq<Seq<char>>
    decreases n,
{
    if n <= 0 {
        Seq::empty()
    } else {
        match items[n - 1].text() {
            Some(s) => texts_of(items, n - 1).push(s),
            None => texts_of(items, n - 1),
        }
    }
}

/// The texts in the list of a field; without one there are none.
pub open spec fn list_field(value: JsonView, key: Seq<char>) -> Seq<Seq<char>> {
    match value.field(key) {
        Some(list) => match list.items() {
            Some(items) => texts_of(items, items.len() as int),
            None => Seq::empty(),
        },
        None => Seq::empty(),
    }
}

/// A summary with its highlights.
pub ghost struct SummaryView {
    pub summary: Seq<char>,
    pub highlights: Seq<Seq<char>>,
}

/// The summary that an archivist's reply gives.
pub open spec fn summary_of(reply: JsonView) -> Option<SummaryView> {
    match reply.text_field("summary"@) {
        Some(summary) => Some(
            SummaryView { summary, highlights: list_field(reply, "highlights"@) },
        ),
        None => None,
    }
}

/// The summary that an archivist's reply gives, which holds a JSON object somewhere.
pub open spec fn summary_in(output: Seq<char>) -> Option<SummaryView> {
    match object_in(output) {
        Some(object) => match json_parsed(object) {
            Some(reply) => summary_of(reply),
            None => None,
        },
        None => None,
    }
}

/// A summary as a reply gives it.
pub open spec fn is_summary(r: Option<(String, Vec<String>)>, view: Option<SummaryView>) -> bool {
    match r {
        Some((summary, highlights)) => view == Some(
            SummaryView { summary: summary@, highlights: views(highlights@) },
        ),
        None => view is None,
    }
}

/// The texts in the list of a field.
pub(crate) fn texts_in_field(value: &Json, key: &str) -> (r: Vec<String>)
    ensures
        views(r@) == list_field(value@, key@),
{
    let mut out: Vec<String> = Vec::new();
    assert(views(out@) =~= Seq::empty());
    if let Some(Json::List(items)) = value.get(key) {
        let ghost all = value@.field(key@)->0.items()->0;
        let mut i: usize = 0;
        while i < items.len()
            invariant
                i <= items@.len(),
                all.len() == items@.len(),
                forall|k: int| 0 <= k < items@.len() ==> #[trigger] all[k] == items@[k]@,
                views(out@) == texts_of(all, i as int),
            decreases items@.len() - i,
        {
            assert(all[i as int] == items@[i as int]@);
            if let Some(s) = items[i].as_str() {
                let ghost before = views(out@);
                let copy = s.to_owned();
                out.push(copy);
                assert(views(out@) =~= before.push(copy@));
            }
            i += 1;
        }
    }
    out
}

/// The summary that an archivist's reply gives.
pub fn read_summary(reply: &Json) -> (r: Option<(String, Vec<String>)>)
    ensures
        is_summary(r, summary_of(reply@)),
{
    match reply.get_str("summary") {
        Some(summary) => Some((summary, texts_in_field(reply, "highlights"))),
        None => None,
    }
}

/// The summary that an archivist's reply gives, which holds a JSON object somewhere.
pub fn parse_summary(output: &str) -> (r: Option<(String, Vec<String>)>)
    ensures
        is_summary(r, summary_in(output@)),
{
    match util::extract_json_object(output) {
        Some(object) => match json::parse_json(object.as_str()) {
            Some(reply) => read_summary(&reply),
            None => None,
        },
        None => None,
    }
}

/// The beginnings of what the user said in the first `n` turns.
pub open spec fn user_heads(turns: Seq<TurnView>, n: int) -> Seq<Seq<char>>
    decreases n,
{
    if n <= 0 {
        Seq::empty()
    } else if turns[n - 1].role == "user"@ {
        user_heads(turns, n - 1).push(prefix_of(turns[n - 1].content, 60))
    } else {
        user_heads(turns, n - 1)
    }
}

/// A session as it is archived: with the archivist's summary, or else with what is known of it.
pub open spec fn archived(
    meta: MetaView,
    turns: Seq<TurnView>,
    reply: Option<SummaryView>,
    at: Seq<char>,
) -> ArchivedView {
    match reply {
        Some(given) => ArchivedView {
            id: meta.id,
            summary: given.summary,
            highlights: given.highlights,
            archived_at: at,
        },
        None => ArchivedView {
            id: meta.id,
            summary: meta.summary,
            highlights: user_heads(turns, turns.len() as int),
            archived_at: at,
        },
    }
}

/// What the archivist is asked about a session, unless it is blank.
pub fn archive_question(turns: &Vec<ConversationTurn>) -> (r: Option<String>)
    ensures
        opt_text(r) == if trim(transcript_of(turns_view(turns@))).len() > 0 {
            Some(transcript_of(turns_view(turns@)))
        } else {
            None
        },
{
    let whole = transcript(turns);
    if text::trimmed(text::chars_of(whole.as_str()).as_slice()).len() == 0 {
        None
    } else {
        Some(whole)
    }
}

/// A session as it is archived. `output` is what the archivist said; it is empty if it was not asked
/// or did not answer.
pub fn summarize_session(
    meta: &SessionMeta,
    turns: &Vec<ConversationTurn>,
    output: &str,
    archived_at: &str,
) -> (r: ArchiveEntry)
    ensures
        r@ == archived(meta@, turns_view(turns@), summary_in(output@), archived_at@),
{
    let (summary, highlights) = match parse_summary(output) {
        Some((summary, highlights)) => (summary, highlights),
        None => {
            let ghost all = turns_view(turns@);
            let mut heads: Vec<String> = Vec::new();
            let mut i: usize = 0;
            assert(views(heads@) =~= Seq::empty());
            while i < turns.len()
                invariant
                    i <= turns@.len(),
                    all == turns_view(turns@),
                    views(heads@) == user_heads(all, i as int),
                decreases turns@.len() - i,
            {
                assert(all[i as int] == turns@[i as int]@);
                if text::same(turns[i].role.as_str(), "user") {
                    let ghost before = views(heads@);
                    let head = text::first_chars(turns[i].content.as_str(), 60);
                    heads.push(head);
                    assert(views(heads@) =~= before.push(head@));
                }
                i += 1;
            }
            (meta.summary.clone(), heads)
        },
    };
    ArchiveEntry { id: meta.id.clone(), summary, highlights, archived_at: archived_at.to_owned() }
}

/// A conversation as it is compressed: with what the archivist said, or else with its length.
pub open spec fn compressed(transcript: Seq<char>, reply: Option<Seq<char>>) -> Seq<char> {
    match reply {
        Some(output) => if trim(output).len() > 0 {
            trim(output)
        } else {
            "(compressed "@ + decimal((text::lines(transcript).len() / 2) as nat) + " turns)"@
        },
        None => "(compressed "@ + decimal((text::lines(transcript).len() / 2) as nat)
            + " turns)"@,
    }
}

/// A conversation as it is compressed.
pub fn compact(transcript: &str, reply: Option<&str>) -> (r: String)
    ensures
        r@ == compressed(
            transcript@,
            match reply {
                Some(output) => Some(output@),
                None => None,
            },
        ),
{
    if let Some(output) = reply {
        let trimmed = text::trimmed(text::chars_of(output).as_slice());
        if trimmed.len() > 0 {
            return text::string_of(trimmed.as_slice());
        }
    }
    let ls = text::lines_of(text::chars_of(transcript).as_slice());
    assert(text::rows(ls@).len() == ls@.len());
    let turns: u64 = (ls.len() / 2) as u64;
    text::glue3("(compressed ", text::number_text(turns).as_str(), " turns)")
}

} // verus!
