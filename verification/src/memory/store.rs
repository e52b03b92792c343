//! The memory store: recent conversation, preferences, summaries of past
//! conversations and the user's profile.

use vstd::prelude::*;
use crate::keyed::KeyedTable;
use crate::session::manager::now_millis;
use crate::text::copy_strings;

verus! {

/// How many conversation summaries long-term memory keeps.
pub const MAX_SUMMARIES: usize = 100;

/// One remembered message.
#[derive(Debug)]
pub struct MemoryEntry {
    pub role: String,
    pub content: String,
    /// Milliseconds since the Unix epoch.
    pub timestamp: i64,
}

impl Clone for MemoryEntry {
    fn clone(&self) -> (r: Self)
        ensures
            r == *self,
    {
        MemoryEntry { role: self.role.clone(), content: self.content.clone(), timestamp: self.timestamp }
    }
}

/// The summary of a past conversation.
#[derive(Debug)]
pub struct ConversationSummary {
    pub session_id: String,
    pub summary: String,
    /// Milliseconds since the Unix epoch.
    pub timestamp: i64,
    pub topics: Vec<String>,
}

impl Clone for ConversationSummary {
    fn clone(&self) -> (r: Self)
        ensures
            r.session_id == self.session_id,
            r.summary == self.summary,
            r.timestamp == self.timestamp,
            r.topics@ == self.topics@,
    {
        ConversationSummary {
            session_id: self.session_id.clone(),
            summary: self.summary.clone(),
            timestamp: self.timestamp,
            topics: copy_strings(&self.topics),
        }
    }
}

/// What is known of the user.
#[derive(Debug)]
pub struct UserProfile {
    pub name: Option<String>,
    pub language: String,
    pub timezone: String,
    pub interests: Vec<String>,
}

impl Clone for UserProfile {
    fn clone(&self) -> (r: Self)
        ensures
            r.name == self.name,
            r.language == self.language,
            r.timezone == self.timezone,
            r.interests@ == self.interests@,
    {
        UserProfile {
            name: match &self.name {
                Some(n) => Some(n.clone()),
                None => None,
            },
            language: self.language.clone(),
            timezone: self.timezone.clone(),
            interests: copy_strings(&self.interests),
        }
    }
}

impl Default for UserProfile {
    fn default() -> (r: Self)
        ensures
            r.name is None,
            r.language@.len() == 0,
            r.timezone@.len() == 0,
            r.interests@.len() == 0,
    {
        UserProfile { name: None, language: String::new(), timezone: String::new(), interests: Vec::new() }
    }
}

/// Memory of the current conversation.
pub struct ShortTermMemory {
    /// The current conversation.
    pub context: Vec<MemoryEntry>,
    /// Preferences stated in the current session.
    pub preferences: KeyedTable<String>,
    /// Entities mentioned recently.
    pub entities: Vec<String>,
}

impl Default for ShortTermMemory {
    fn default() -> (r: Self)
        ensures
            r.context@.len() == 0,
            r.preferences@ == Map::<Seq<char>, String>::empty(),
            r.entities@.len() == 0,
    {
        ShortTermMemory { context: Vec::new(), preferences: KeyedTable::new(), entities: Vec::new() }
    }
}

/// Memory kept across conversations.
pub struct LongTermMemory {
    /// Preferences of the user.
    pub user_preferences: KeyedTable<String>,
    /// Summaries of past conversations, oldest first.
    pub conversation_summaries: Vec<ConversationSummary>,
    pub user_profile: UserProfile,
}

impl Default for LongTermMemory {
    fn default() -> (r: Self)
        ensures
            r.user_preferences@ == Map::<Seq<char>, String>::empty(),
            r.conversation_summaries@.len() == 0,
            r.user_preferences.entry_seq().len() == 0,
            r.user_profile.name is None,
            r.user_profile.language@.len() == 0,
            r.user_profile.timezone@.len() == 0,
            r.user_profile.interests@.len() == 0,
    {
        LongTermMemory {
            user_preferences: KeyedTable::new(),
            conversation_summaries: Vec::new(),
            user_profile: UserProfile::default(),
        }
    }
}

/// The value of a preference: the one stated in the current session if
/// any, else the long-term one.
pub open spec fn preference_lookup(
    short: Map<Seq<char>, String>,
    long: Map<Seq<char>, String>,
    key: Seq<char>,
) -> Option<String> {
    if short.contains_key(key) {
        Some(short[key])
    } else if long.contains_key(key) {
        Some(long[key])
    } else {
        None
    }
}

/// The summaries after adding `s` to `old`: the oldest one is dropped when
/// there would be more than `MAX_SUMMARIES`.
pub open spec fn summaries_after_add(
    old: Seq<ConversationSummary>,
    s: ConversationSummary,
) -> Seq<ConversationSummary> {
    if old.len() + 1 > MAX_SUMMARIES {
        old.push(s).drop_first()
    } else {
        old.push(s)
    }
}

/// The last `limit` items of `s`, or all of them when there are fewer.
pub open spec fn last_n<A>(s: Seq<A>, limit: nat) -> Seq<A> {
    if s.len() <= limit {
        s
    } else {
        s.skip(s.len() - limit)
    }
}

/// The lines `role: content` of the remembered messages.
pub open spec fn entry_lines(es: Seq<MemoryEntry>) -> Seq<char>
    decreases es.len(),
{
    if es.len() == 0 {
        Seq::empty()
    } else {
        entry_lines(es.drop_last()) + es.last().role@ + ": "@ + es.last().content@ + "\n"@
    }
}

/// The lines `key: value` of the preferences, in the given order.
pub open spec fn preference_lines(ps: Seq<(String, String)>) -> Seq<char>
    decreases ps.len(),
{
    if ps.len() == 0 {
        Seq::empty()
    } else {
        preference_lines(ps.drop_last()) + ps.last().0@ + ": "@ + ps.last().1@ + "\n"@
    }
}

/// The keys and values of `ps`, as text.
pub open spec fn pair_views(ps: Seq<(String, String)>) -> Seq<(Seq<char>, Seq<char>)> {
    ps.map_values(|e: (String, String)| (e.0@, e.1@))
}

/// The memory as context text for the model: the recent conversation,
/// then the long-term preferences, each section only when not empty.
pub open spec fn context_text(es: Seq<MemoryEntry>, ps: Seq<(String, String)>) -> Seq<char> {
    (if es.len() > 0 {
        "## Recent Conversation\n"@ + entry_lines(es)
    } else {
        Seq::empty()
    }) + (if ps.len() > 0 {
        "\n## User Preferences\n"@ + preference_lines(ps)
    } else {
        Seq::empty()
    })
}

/// Short-term and long-term memory.
pub struct MemoryStore {
    short_term: ShortTermMemory,
    long_term: LongTermMemory,
}

impl MemoryStore {
    #[verifier::type_invariant]
    spec fn summaries_capped(self) -> bool {
        self.long_term.conversation_summaries@.len() <= MAX_SUMMARIES
    }

    /// The messages of the current conversation.
    pub closed spec fn short_context(&self) -> Seq<MemoryEntry> {
        self.short_term.context@
    }

    /// The entities mentioned recently.
    pub closed spec fn short_entities(&self) -> Seq<String> {
        self.short_term.entities@
    }

    /// The preferences stated in the current session.
    pub closed spec fn short_preferences(&self) -> Map<Seq<char>, String> {
        self.short_term.preferences@
    }

    /// The long-term preferences.
    pub closed spec fn long_preferences(&self) -> Map<Seq<char>, String> {
        self.long_term.user_preferences@
    }

    /// The long-term preferences in the order the store walks them.
    pub closed spec fn long_preference_entries(&self) -> Seq<(String, String)> {
        self.long_term.user_preferences.entry_seq()
    }

    /// The conversation summaries, oldest first.
    pub closed spec fn summaries(&self) -> Seq<ConversationSummary> {
        self.long_term.conversation_summaries@
    }

    /// The user's profile.
    pub closed spec fn profile(&self) -> UserProfile {
        self.long_term.user_profile
    }

    /// An empty memory.
    pub fn new() -> (m: Self)
        ensures
            m.short_context().len() == 0,
            m.short_preferences() == Map::<Seq<char>, String>::empty(),
            m.short_entities().len() == 0,
            m.long_preferences() == Map::<Seq<char>, String>::empty(),
            m.long_preference_entries().len() == 0,
            m.summaries().len() == 0,
            m.profile().name is None,
            m.profile().language@.len() == 0,
            m.profile().timezone@.len() == 0,
            m.profile().interests@.len() == 0,
    {
        MemoryStore { short_term: ShortTermMemory::default(), long_term: LongTermMemory::default() }
    }

    fn take_short(&mut self) -> (s: ShortTermMemory)
        ensures
            s == old(self).short_term,
            final(self).long_term == old(self).long_term,
            final(self).short_term.context@.len() == 0,
    {
        proof {
            use_type_invariant(&*self);
        }
        let mut s = ShortTermMemory::default();
        std::mem::swap(&mut s, &mut self.short_term);
        s
    }

    fn take_long(&mut self) -> (l: LongTermMemory)
        ensures
            l == old(self).long_term,
            final(self).short_term == old(self).short_term,
            final(self).long_term.conversation_summaries@.len() == 0,
    {
        proof {
            use_type_invariant(&*self);
        }
        let mut l = LongTermMemory::default();
        std::mem::swap(&mut l, &mut self.long_term);
        l
    }

    /// Remembers a message of the current conversation, stamped now.
    pub fn add_short_term(&mut self, role: &str, content: &str)
        ensures
            final(self).short_entities() == old(self).short_entities(),
            final(self).short_context().len() == old(self).short_context().len() + 1,
            final(self).short_context().drop_last() == old(self).short_context(),
            final(self).short_context().last().role@ == role@,
            final(self).short_context().last().content@ == content@,
            final(self).short_preferences() == old(self).short_preferences(),
            final(self).long_preferences() == old(self).long_preferences(),
            final(self).long_preference_entries() == old(self).long_preference_entries(),
            final(self).summaries() == old(self).summaries(),
            final(self).profile() == old(self).profile(),
    {
        proof {
            use_type_invariant(&*self);
        }
        let mut s = self.take_short();
        s.context.push(
            MemoryEntry {
                role: String::from_str(role),
                content: String::from_str(content),
                timestamp: now_millis(),
            },
        );
        self.short_term = s;
        assert(final(self).short_context().drop_last() =~= old(self).short_context());
    }

    /// The messages of the current conversation.
    pub fn get_short_term(&self) -> (r: Vec<MemoryEntry>)
        ensures
            r@ == self.short_context(),
    {
        let v = &self.short_term.context;
        let mut r: Vec<MemoryEntry> = Vec::new();
        let mut i: usize = 0;
        while i < v.len()
            invariant
                i <= v@.len(),
                r@ == v@.take(i as int),
            decreases v@.len() - i,
        {
            r.push(v[i].clone());
            assert(v@.take(i + 1) =~= v@.take(i as int).push(v@[i as int]));
            i = i + 1;
        }
        assert(v@.take(v@.len() as int) =~= v@);
        r
    }

    /// Forgets the messages of the current conversation.
    pub fn clear_short_term(&mut self)
        ensures
            final(self).short_entities() == old(self).short_entities(),
            final(self).short_context().len() == 0,
            final(self).short_preferences() == old(self).short_preferences(),
            final(self).long_preferences() == old(self).long_preferences(),
            final(self).long_preference_entries() == old(self).long_preference_entries(),
            final(self).summaries() == old(self).summaries(),
            final(self).profile() == old(self).profile(),
    {
        proof {
            use_type_invariant(&*self);
        }
        let mut s = self.take_short();
        s.context = Vec::new();
        self.short_term = s;
    }

    /// Records a preference, for this session and for the long term.
    pub fn save_preference(&mut self, key: &str, value: &str)
        ensures
            final(self).short_entities() == old(self).short_entities(),
            final(self).short_preferences() == old(self).short_preferences().insert(
                key@,
                final(self).short_preferences()[key@],
            ),
            final(self).short_preferences()[key@]@ == value@,
            final(self).long_preferences() == old(self).long_preferences().insert(
                key@,
                final(self).long_preferences()[key@],
            ),
            final(self).long_preferences()[key@]@ == value@,
            old(self).long_preferences().contains_key(key@) ==> pair_views(final(self).long_preference_entries())
                == pair_views(old(self).long_preference_entries()).map_values(
                |e: (Seq<char>, Seq<char>)|
                    if e.0 == key@ {
                        (key@, value@)
                    } else {
                        e
                    },
            ),
            !old(self).long_preferences().contains_key(key@) ==> pair_views(final(self).long_preference_entries())
                == pair_views(old(self).long_preference_entries()).push((key@, value@)),
            final(self).short_context() == old(self).short_context(),
            final(self).summaries() == old(self).summaries(),
            final(self).profile() == old(self).profile(),
    {
        proof {
            use_type_invariant(&*self);
        }
        let mut s = self.take_short();
        s.preferences.insert(String::from_str(key), String::from_str(value));
        self.short_term = s;
        let mut l = self.take_long();
        let ghost before = l.user_preferences.entry_seq();
        l.user_preferences.insert(String::from_str(key), String::from_str(value));
        let ghost after = l.user_preferences.entry_seq();
        self.long_term = l;
        proof {
            if old(self).long_preferences().contains_key(key@) {
                assert(pair_views(after) =~= pair_views(before).map_values(
                    |e: (Seq<char>, Seq<char>)|
                        if e.0 == key@ {
                            (key@, value@)
                        } else {
                            e
                        },
                ));
            } else {
                assert(pair_views(after) =~= pair_views(before).push((key@, value@)));
            }
        }
    }

    /// The value of a preference: the one of this session if stated,
    /// else the long-term one.
    pub fn get_preference(&self, key: &str) -> (r: Option<String>)
        ensures
            opt_string_view(r) == opt_string_view(
                preference_lookup(self.short_preferences(), self.long_preferences(), key@),
            ),
    {
        match self.short_term.preferences.get(key) {
            Some(v) => Some(v.clone()),
            None => match self.long_term.user_preferences.get(key) {
                Some(v) => Some(v.clone()),
                None => None,
            },
        }
    }

    /// Adds the summary of a conversation, stamped now; only the latest
    /// `MAX_SUMMARIES` summaries are kept.
    pub fn add_summary(&mut self, session_id: &str, summary: &str, topics: Vec<String>)
        ensures
            final(self).short_entities() == old(self).short_entities(),
            final(self).summaries().len() == summaries_after_add(
                old(self).summaries(),
                final(self).summaries().last(),
            ).len(),
            final(self).summaries() == summaries_after_add(
                old(self).summaries(),
                final(self).summaries().last(),
            ),
            final(self).summaries().last().session_id@ == session_id@,
            final(self).summaries().last().summary@ == summary@,
            final(self).summaries().last().topics == topics,
            final(self).summaries().len() <= MAX_SUMMARIES,
            final(self).short_context() == old(self).short_context(),
            final(self).short_preferences() == old(self).short_preferences(),
            final(self).long_preferences() == old(self).long_preferences(),
            final(self).long_preference_entries() == old(self).long_preference_entries(),
            final(self).profile() == old(self).profile(),
    {
        proof {
            use_type_invariant(&*self);
        }
        let mut l = self.take_long();
        let ghost before = l.conversation_summaries@;
        let entry = ConversationSummary {
            session_id: String::from_str(session_id),
            summary: String::from_str(summary),
            timestamp: now_millis(),
            topics,
        };
        let ghost added = entry;
        l.conversation_summaries.push(entry);
        if l.conversation_summaries.len() > MAX_SUMMARIES {
            let _ = l.conversation_summaries.remove(0);
            assert(l.conversation_summaries@ =~= before.push(added).drop_first());
        }
        self.long_term = l;
    }

    /// The latest `limit` summaries, oldest first.
    pub fn get_recent_summaries(&self, limit: usize) -> (r: Vec<ConversationSummary>)
        ensures
            r@.len() == last_n(self.summaries(), limit as nat).len(),
            forall|i: int|
                0 <= i < r@.len() ==> same_summary(#[trigger] r@[i], last_n(self.summaries(), limit as nat)[i]),
    {
        let v = &self.long_term.conversation_summaries;
        let len = v.len();
        let start = if len <= limit {
            0
        } else {
            len - limit
        };
        let ghost want = last_n(self.summaries(), limit as nat);
        assert(want =~= v@.skip(start as int));
        let mut r: Vec<ConversationSummary> = Vec::new();
        let mut i = start;
        while i < len
            invariant
                len == v@.len(),
                start <= i <= len,
                want == v@.skip(start as int),
                r@.len() == i - start,
                forall|j: int| 0 <= j < r@.len() ==> same_summary(#[trigger] r@[j], want[j]),
            decreases len - i,
        {
            let c = v[i].clone();
            r.push(c);
            i = i + 1;
        }
        r
    }

    /// Replaces the user's profile.
    pub fn update_profile(&mut self, profile: UserProfile)
        ensures
            final(self).short_entities() == old(self).short_entities(),
            final(self).profile() == profile,
            final(self).short_context() == old(self).short_context(),
            final(self).short_preferences() == old(self).short_preferences(),
            final(self).long_preferences() == old(self).long_preferences(),
            final(self).long_preference_entries() == old(self).long_preference_entries(),
            final(self).summaries() == old(self).summaries(),
    {
        proof {
            use_type_invariant(&*self);
        }
        let mut l = self.take_long();
        l.user_profile = profile;
        self.long_term = l;
    }

    /// The user's profile.
    pub fn get_profile(&self) -> (p: UserProfile)
        ensures
            p.name == self.profile().name,
            p.language == self.profile().language,
            p.timezone == self.profile().timezone,
            p.interests@ == self.profile().interests@,
    {
        self.long_term.user_profile.clone()
    }

    /// The memory as context text for the model: a `## Recent Conversation`
    /// section with a `role: content` line per message, then a
    /// `## User Preferences` section with a `key: value` line per long-term
    /// preference; a section is left out when it would be empty.
    pub fn format_context(&self) -> (text: String)
        ensures
            text@ == context_text(self.short_context(), self.long_preference_entries()),
    {
        let mut out = String::new();
        let es = &self.short_term.context;
        if es.len() > 0 {
            out.append("## Recent Conversation\n");
            let ghost head = out@;
            let mut i: usize = 0;
            while i < es.len()
                invariant
                    i <= es@.len(),
                    es@.len() > 0,
                    head == "## Recent Conversation\n"@,
                    out@ == head + entry_lines(es@.take(i as int)),
                decreases es@.len() - i,
            {
                out.append(es[i].role.as_str());
                out.append(": ");
                out.append(es[i].content.as_str());
                out.append("\n");
                proof {
                    let t = es@.take(i + 1);
                    assert(t.drop_last() =~= es@.take(i as int));
                    assert(t.last() == es@[i as int]);
                }
                i = i + 1;
            }
            assert(es@.take(es@.len() as int) =~= es@);
        }
        let ghost first = out@;
        assert(first == (if es@.len() > 0 {
            "## Recent Conversation\n"@ + entry_lines(es@)
        } else {
            Seq::<char>::empty()
        })) by {
            if es@.len() == 0 {
                assert(out@ =~= Seq::<char>::empty());
            }
        }
        let prefs = &self.long_term.user_preferences;
        let n = prefs.len();
        if n > 0 {
            out.append("\n## User Preferences\n");
            let ghost head = out@;
            let mut i: usize = 0;
            while i < n
                invariant
                    n == prefs.entry_seq().len(),
                    i <= n,
                    head == first + "\n## User Preferences\n"@,
                    out@ == head + preference_lines(prefs.entry_seq().take(i as int)),
                decreases n - i,
            {
                let (k, v) = prefs.entry(i);
                out.append(k.as_str());
                out.append(": ");
                out.append(v.as_str());
                out.append("\n");
                proof {
                    let t = prefs.entry_seq().take(i + 1);
                    assert(t.drop_last() =~= prefs.entry_seq().take(i as int));
                    assert(t.last() == prefs.entry_seq()[i as int]);
                }
                i = i + 1;
            }
            assert(prefs.entry_seq().take(n as int) =~= prefs.entry_seq());
        }
        assert(out@ =~= context_text(self.short_context(), self.long_preference_entries()));
        out
    }
}

impl Default for MemoryStore {
    fn default() -> (m: Self)
        ensures
            m.short_context().len() == 0,
            m.short_preferences() == Map::<Seq<char>, String>::empty(),
            m.short_entities().len() == 0,
            m.long_preferences() == Map::<Seq<char>, String>::empty(),
            m.long_preference_entries().len() == 0,
            m.summaries().len() == 0,
            m.profile().name is None,
            m.profile().language@.len() == 0,
            m.profile().timezone@.len() == 0,
            m.profile().interests@.len() == 0,
    {
        Self::new()
    }
}

/// Two summaries hold the same content.
pub open spec fn same_summary(a: ConversationSummary, b: ConversationSummary) -> bool {
    &&& a.session_id == b.session_id
    &&& a.summary == b.summary
    &&& a.timestamp == b.timestamp
    &&& a.topics@ == b.topics@
}

/// The view of an optional string.
pub open spec fn opt_string_view(o: Option<String>) -> Option<Seq<char>> {
    match o {
        Some(s) => Some(s@),
        None => None,
    }
}

/// The conversation section writes one line per message, in order: the
/// lines of two runs of messages are the lines of the first followed by
/// those of the second, and a single message gives the one line
/// `role: content`.
pub proof fn law_entry_lines_one_per_message(a: Seq<MemoryEntry>, b: Seq<MemoryEntry>, e: MemoryEntry)
    ensures
        entry_lines(a + b) == entry_lines(a) + entry_lines(b),
        entry_lines(seq![e]) == e.role@ + ": "@ + e.content@ + "\n"@,
    decreases b.len(),
{
    let one = seq![e];
    assert(one.drop_last() =~= Seq::<MemoryEntry>::empty());
    assert(one.last() == e);
    assert(entry_lines(Seq::<MemoryEntry>::empty()) == Seq::<char>::empty());
    assert(Seq::<char>::empty() + e.role@ + ": "@ + e.content@ + "\n"@ =~= e.role@ + ": "@ + e.content@
        + "\n"@);
    if b.len() == 0 {
        assert(a + b =~= a);
        assert(entry_lines(a) + Seq::<char>::empty() =~= entry_lines(a));
    } else {
        let init = b.drop_last();
        law_entry_lines_one_per_message(a, init, e);
        assert((a + b).drop_last() =~= a + init);
        assert((a + b).last() == b.last());
        let l = b.last();
        assert(entry_lines(a) + entry_lines(init) + l.role@ + ": "@ + l.content@ + "\n"@ =~= entry_lines(a)
            + (entry_lines(init) + l.role@ + ": "@ + l.content@ + "\n"@));
    }
}

/// The preference section writes one line per preference, in order: the
/// lines of two runs of preferences are the lines of the first followed
/// by those of the second, and a single preference gives the one line
/// `key: value`.
pub proof fn law_preference_lines_one_per_entry(
    a: Seq<(String, String)>,
    b: Seq<(String, String)>,
    p: (String, String),
)
    ensures
        preference_lines(a + b) == preference_lines(a) + preference_lines(b),
        preference_lines(seq![p]) == p.0@ + ": "@ + p.1@ + "\n"@,
    decreases b.len(),
{
    let one = seq![p];
    assert(one.drop_last() =~= Seq::<(String, String)>::empty());
    assert(one.last() == p);
    assert(preference_lines(Seq::<(String, String)>::empty()) == Seq::<char>::empty());
    assert(Seq::<char>::empty() + p.0@ + ": "@ + p.1@ + "\n"@ =~= p.0@ + ": "@ + p.1@ + "\n"@);
    if b.len() == 0 {
        assert(a + b =~= a);
        assert(preference_lines(a) + Seq::<char>::empty() =~= preference_lines(a));
    } else {
        let init = b.drop_last();
        law_preference_lines_one_per_entry(a, init, p);
        assert((a + b).drop_last() =~= a + init);
        assert((a + b).last() == b.last());
        let l = b.last();
        assert(preference_lines(a) + preference_lines(init) + l.0@ + ": "@ + l.1@ + "\n"@ =~= preference_lines(a)
            + (preference_lines(init) + l.0@ + ": "@ + l.1@ + "\n"@));
    }
}

/// Remembering one more message adds its `role: content` line at the end
/// of the conversation section of the context text, after the lines of
/// the messages before it, and changes nothing else.
pub proof fn law_context_adds_message_line(es: Seq<MemoryEntry>, e: MemoryEntry, ps: Seq<(String, String)>)
    requires
        es.len() > 0,
    ensures
        context_text(es.push(e), ps) == context_text(es, Seq::empty()) + e.role@ + ": "@ + e.content@
            + "\n"@ + context_text(Seq::empty(), ps),
{
    law_entry_lines_one_per_message(es, seq![e], e);
    assert(es + seq![e] =~= es.push(e));
    let line = e.role@ + ": "@ + e.content@ + "\n"@;
    let head = "## Recent Conversation\n"@;
    let tail = context_text(Seq::empty(), ps);
    assert(context_text(es, Seq::empty()) =~= head + entry_lines(es));
    assert(head + (entry_lines(es) + line) + tail =~= head + entry_lines(es) + e.role@ + ": "@
        + e.content@ + "\n"@ + tail);
}

/// A preference reads back as it was saved: after `save_preference(k, v)`
/// (which gives `k` the value `v` in both memories), `get_preference(k)` is
/// `v`.
pub proof fn law_preference_read_after_write(
    short: Map<Seq<char>, String>,
    long: Map<Seq<char>, String>,
    key: Seq<char>,
    value: String,
)
    ensures
        preference_lookup(short.insert(key, value), long.insert(key, value), key) == Some(value),
{
}

} // verus!
