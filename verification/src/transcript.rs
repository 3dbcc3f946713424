//! The conversation state a session keeps: its transcript, seeded with the
//! system prompt, extended one completed turn at a time.
use vstd::prelude::*;
use crate::text::{concat, escape_nul, escape_nul_chars};
use vstd::string::*;

verus! {

/// Who spoke a message.
#[derive(PartialEq, Eq, Structural, Debug, Clone, Copy)]
pub enum Role {
    System,
    User,
    Assistant,
}

/// The name of a role as the transcript writes it.
pub open spec fn role_name(role: Role) -> Seq<char> {
    match role {
        Role::System => "system"@,
        Role::User => "user"@,
        Role::Assistant => "assistant"@,
    }
}

impl Role {
    pub fn as_str(&self) -> (s: &'static str)
        ensures
            s@ == role_name(*self),
    {
        match self {
            Role::System => "system",
            Role::User => "user",
            Role::Assistant => "assistant",
        }
    }
}

/// One message of a conversation.
#[derive(Debug)]
pub struct ChatMessage {
    pub role: Role,
    pub content: String,
}

impl View for ChatMessage {
    type V = (Role, Seq<char>);

    open spec fn view(&self) -> (Role, Seq<char>) {
        (self.role, self.content@)
    }
}

impl ChatMessage {
    pub fn system(content: &str) -> (m: Self)
        ensures
            m@ == (Role::System, content@),
    {
        ChatMessage { role: Role::System, content: content.to_owned() }
    }

    pub fn user(content: &str) -> (m: Self)
        ensures
            m@ == (Role::User, content@),
    {
        ChatMessage { role: Role::User, content: content.to_owned() }
    }

    pub fn assistant(content: &str) -> (m: Self)
        ensures
            m@ == (Role::Assistant, content@),
    {
        ChatMessage { role: Role::Assistant, content: content.to_owned() }
    }

    pub fn duplicate(&self) -> (m: Self)
        ensures
            m@ == self@,
    {
        ChatMessage { role: self.role, content: self.content.clone() }
    }
}

/// The views of a list of messages.
pub open spec fn messages_view(v: Seq<ChatMessage>) -> Seq<(Role, Seq<char>)> {
    v.map_values(|m: ChatMessage| m@)
}

proof fn lemma_messages_view_push(v: Seq<ChatMessage>, m: ChatMessage)
    ensures
        messages_view(v.push(m)) == messages_view(v).push(m@),
{
    assert(messages_view(v.push(m)) =~= messages_view(v).push(m@));
}

/// A fresh conversation: the system prompt as its first message when one was
/// given and is not empty, otherwise nothing.
pub open spec fn seeded(system_prompt: Option<Seq<char>>) -> Seq<(Role, Seq<char>)> {
    match system_prompt {
        Some(s) => if s.len() > 0 {
            seq![(Role::System, s)]
        } else {
            Seq::empty()
        },
        None => Seq::empty(),
    }
}

/// The messages of a turn before the reply is known: the history so far plus
/// the user's new message.
pub open spec fn with_user(history: Seq<(Role, Seq<char>)>, user: Seq<char>) -> Seq<
    (Role, Seq<char>),
> {
    history.push((Role::User, user))
}

/// The history after a completed turn.
pub open spec fn after_turn(history: Seq<(Role, Seq<char>)>, user: Seq<char>, reply: Seq<char>) -> Seq<
    (Role, Seq<char>),
> {
    history.push((Role::User, user)).push((Role::Assistant, reply))
}

/// A transcript line as the C ABI hands it out: `role`, a tab, the content.
pub open spec fn entry_line(m: (Role, Seq<char>)) -> Seq<char> {
    role_name(m.0) + "\t"@ + m.1
}

/// The seeded history of a fresh conversation.
pub fn seeded_history(system_prompt: &Option<String>) -> (h: Vec<ChatMessage>)
    ensures
        messages_view(h@) == seeded(
            match system_prompt {
                Some(s) => Some(s@),
                None => None,
            },
        ),
{
    let mut h: Vec<ChatMessage> = Vec::new();
    match system_prompt {
        Some(s) => {
            if !s.as_str().is_empty() {
                h.push(ChatMessage::system(s.as_str()));
            }
        },
        None => {},
    }
    assert(messages_view(h@) =~= seeded(
        match system_prompt {
            Some(s) => Some(s@),
            None => None,
        },
    ));
    h
}

/// A session's conversation: the system prompt it was opened with and the
/// messages exchanged so far.
pub struct Transcript {
    system_prompt: Option<String>,
    history: Vec<ChatMessage>,
}

impl View for Transcript {
    type V = Seq<(Role, Seq<char>)>;

    closed spec fn view(&self) -> Seq<(Role, Seq<char>)> {
        messages_view(self.history@)
    }
}

impl Transcript {
    /// The system prompt the conversation was opened with.
    pub closed spec fn prompt(&self) -> Option<Seq<char>> {
        match self.system_prompt {
            Some(s) => Some(s@),
            None => None,
        }
    }

    /// Open a conversation, seeded with `system_prompt`.
    pub fn new(system_prompt: Option<String>) -> (t: Self)
        ensures
            t.prompt() == (match system_prompt {
                Some(s) => Some(s@),
                None => None,
            }),
            t@ == seeded(t.prompt()),
    {
        let history = seeded_history(&system_prompt);
        Transcript { system_prompt, history }
    }

    /// The number of messages in the transcript.
    pub fn len(&self) -> (n: usize)
        ensures
            n == self@.len(),
    {
        self.history.len()
    }

    /// Entry `index` as `role\tcontent`, or `None` past the end.
    pub fn entry_at(&self, index: usize) -> (r: Option<String>)
        ensures
            r is Some <==> index < self@.len(),
            r matches Some(line) ==> line@ == entry_line(self@[index as int]),
    {
        if index < self.history.len() {
            let m = &self.history[index];
            let head = concat(m.role.as_str(), "\t");
            Some(concat(head.as_str(), m.content.as_str()))
        } else {
            None
        }
    }

    /// The messages to send for a new turn, without changing the transcript:
    /// the history is only committed once the turn succeeds.
    pub fn messages_with(&self, user_message: &str) -> (msgs: Vec<ChatMessage>)
        ensures
            messages_view(msgs@) == with_user(self@, user_message@),
    {
        let mut msgs: Vec<ChatMessage> = Vec::new();
        let n = self.history.len();
        let mut i: usize = 0;
        while i < n
            invariant
                i <= n,
                n == self.history@.len(),
                messages_view(msgs@) == messages_view(self.history@).subrange(0, i as int),
            decreases n - i,
        {
            let ghost prev = msgs@;
            let d = self.history[i].duplicate();
            msgs.push(d);
            proof {
                lemma_messages_view_push(prev, d);
                assert(messages_view(self.history@)[i as int] == self.history@[i as int]@);
            }
            i = i + 1;
            assert(messages_view(msgs@) =~= messages_view(self.history@).subrange(0, i as int));
        }
        let ghost prev = msgs@;
        let u = ChatMessage::user(user_message);
        msgs.push(u);
        proof {
            lemma_messages_view_push(prev, u);
            assert(messages_view(self.history@).subrange(0, n as int) =~= messages_view(
                self.history@,
            ));
        }
        assert(messages_view(msgs@) =~= with_user(self@, user_message@));
        msgs
    }

    /// Record a completed turn: the user's message, then the reply.
    pub fn commit_turn(&mut self, user_message: &str, reply: &str)
        ensures
            final(self)@ == after_turn(old(self)@, user_message@, reply@),
            final(self).prompt() == old(self).prompt(),
    {
        let ghost h0 = self.history@;
        let u = ChatMessage::user(user_message);
        self.history.push(u);
        let ghost h1 = self.history@;
        let a = ChatMessage::assistant(reply);
        self.history.push(a);
        proof {
            lemma_messages_view_push(h0, u);
            lemma_messages_view_push(h1, a);
        }
        assert(messages_view(self.history@) =~= after_turn(
            messages_view(old(self).history@),
            user_message@,
            reply@,
        ));
    }

    /// Clear the conversation; the system prompt given at opening is seeded
    /// again.
    pub fn reset(&mut self)
        ensures
            final(self)@ == seeded(old(self).prompt()),
            final(self).prompt() == old(self).prompt(),
    {
        self.history = seeded_history(&self.system_prompt);
    }
}

/// The messages a turn sends are exactly the ones it commits, before the
/// reply: committing `(user, reply)` yields the sent messages followed by the
/// reply.
pub proof fn law_commit_extends_sent_messages(
    history: Seq<(Role, Seq<char>)>,
    user: Seq<char>,
    reply: Seq<char>,
)
    ensures
        after_turn(history, user, reply) == with_user(history, user).push(
            (Role::Assistant, reply),
        ),
        after_turn(history, user, reply).len() == history.len() + 2,
        after_turn(history, user, reply).subrange(0, history.len() as int) == history,
{
    assert(after_turn(history, user, reply).subrange(0, history.len() as int) =~= history);
}

/// The role names are the words `system`, `user` and `assistant`.
pub proof fn law_role_names()
    ensures
        role_name(Role::System) == seq!['s', 'y', 's', 't', 'e', 'm'],
        role_name(Role::User) == seq!['u', 's', 'e', 'r'],
        role_name(Role::Assistant) == seq!['a', 's', 's', 'i', 's', 't', 'a', 'n', 't'],
{
    reveal_strlit("system");
    reveal_strlit("user");
    reveal_strlit("assistant");
    assert(role_name(Role::System) =~= seq!['s', 'y', 's', 't', 'e', 'm']);
    assert(role_name(Role::User) =~= seq!['u', 's', 'e', 'r']);
    assert(role_name(Role::Assistant) =~= seq!['a', 's', 's', 'i', 's', 't', 'a', 'n', 't']);
}

/// A message's view is its role and its whole content.
pub proof fn law_message_view_is_role_and_content(m: ChatMessage)
    ensures
        m@.0 == m.role,
        m@.1 == m.content@,
        m@.1.len() == m.content@.len(),
{
}

/// A transcript line is the role's name, one tab, then the whole content:
/// its length is the name's length plus one plus the content's length, and
/// the content can be read back from it unchanged, whatever its length.
pub proof fn law_entry_line_is_role_tab_content(m: (Role, Seq<char>))
    ensures
        entry_line(m).len() == role_name(m.0).len() + 1 + m.1.len(),
        entry_line(m).subrange(0, role_name(m.0).len() as int) == role_name(m.0),
        entry_line(m)[role_name(m.0).len() as int] == '\t',
        entry_line(m).subrange(role_name(m.0).len() + 1 as int, entry_line(m).len() as int) == m.1,
{
    reveal_strlit("\t");
    let n = role_name(m.0).len() as int;
    let line = entry_line(m);
    assert(line == role_name(m.0) + seq!['\t'] + m.1);
    assert(line.subrange(0, n) =~= role_name(m.0));
    assert(line.subrange(n + 1, line.len() as int) =~= m.1);
}

/// A fresh or reset conversation holds exactly the system prompt when one is
/// given and not empty, whatever its length, and nothing otherwise.
pub proof fn law_seeded_is_the_prompt(p: Seq<char>)
    ensures
        p.len() > 0 ==> seeded(Some(p)) == seq![(Role::System, p)],
        p.len() > 0 ==> seeded(Some(p)).len() == 1 && seeded(Some(p))[0].1 == p,
        p.len() == 0 ==> seeded(Some(p)).len() == 0,
        seeded(None).len() == 0,
{
}

/// A turn sends the history unchanged followed by the user's whole text, and
/// records the history unchanged, the user's whole text, then the whole reply.
pub proof fn law_turn_adds_whole_messages(
    h: Seq<(Role, Seq<char>)>,
    u: Seq<char>,
    r: Seq<char>,
)
    ensures
        with_user(h, u).len() == h.len() + 1,
        with_user(h, u).subrange(0, h.len() as int) == h,
        with_user(h, u)[h.len() as int] == (Role::User, u),
        after_turn(h, u, r).len() == h.len() + 2,
        after_turn(h, u, r).subrange(0, h.len() as int) == h,
        after_turn(h, u, r)[h.len() as int] == (Role::User, u),
        after_turn(h, u, r)[h.len() + 1 as int] == (Role::Assistant, r),
{
    assert(with_user(h, u).subrange(0, h.len() as int) =~= h);
    assert(after_turn(h, u, r).subrange(0, h.len() as int) =~= h);
}

/// A reply being streamed: the full text so far, and the escaped fragments
/// handed to the C callback.
pub struct StreamedReply {
    text: String,
}

impl View for StreamedReply {
    type V = Seq<char>;

    closed spec fn view(&self) -> Seq<char> {
        self.text@
    }
}

impl StreamedReply {
    pub fn new() -> (r: Self)
        ensures
            r@ == Seq::<char>::empty(),
    {
        StreamedReply { text: String::new() }
    }

    /// Take one decoded fragment: append it to the reply and return the
    /// fragment as the callback sees it, with NULs escaped.
    pub fn accept(&mut self, token: &str) -> (fragment: String)
        ensures
            final(self)@ == old(self)@ + token@,
            fragment@ == escape_nul_chars(token@),
    {
        self.text.append(token);
        escape_nul(token)
    }

    /// The reply so far.
    pub fn as_str(&self) -> (s: &str)
        ensures
            s@ == self@,
    {
        self.text.as_str()
    }
}

} // verus!
