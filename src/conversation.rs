//! The ordered turns of one conversation and the transcript they render to.

use vstd::prelude::*;
use crate::text::{chars_of, find_in, first_occ, has_prefix, matches_at, trim_start, trim_start_bound};
use crate::vars::Variables;

verus! {

/// One turn of a conversation.
#[derive(Debug)]
pub enum ChatMessage {
    User(String),
    Assistant(String),
    System(String),
}

impl ChatMessage {
    pub open spec fn text_view(&self) -> Seq<char> {
        match self {
            ChatMessage::User(s) => s@,
            ChatMessage::Assistant(s) => s@,
            ChatMessage::System(s) => s@,
        }
    }

    pub fn text(&self) -> (r: &str)
        ensures
            r@ == self.text_view(),
    {
        match self {
            ChatMessage::User(s) => s.as_str(),
            ChatMessage::Assistant(s) => s.as_str(),
            ChatMessage::System(s) => s.as_str(),
        }
    }

    pub fn is_user(&self) -> (r: bool)
        ensures
            r == self is User,
    {
        matches!(self, ChatMessage::User(..))
    }

    pub fn is_assistant(&self) -> (r: bool)
        ensures
            r == self is Assistant,
    {
        matches!(self, ChatMessage::Assistant(..))
    }

    pub fn is_system(&self) -> (r: bool)
        ensures
            r == self is System,
    {
        matches!(self, ChatMessage::System(..))
    }
}

/// The delimiter that opens a turn of the role of `m` in a transcript.
pub open spec fn role_start(m: ChatMessage) -> Seq<char> {
    match m {
        ChatMessage::User(_) => "{{~#user~}}"@,
        ChatMessage::Assistant(_) => "{{~#assistant}}"@,
        ChatMessage::System(_) => "<<SYS>>"@,
    }
}

/// The delimiter that closes a turn of the role of `m` in a transcript.
pub open spec fn role_end(m: ChatMessage) -> Seq<char> {
    match m {
        ChatMessage::User(_) => "{{~/user}}"@,
        ChatMessage::Assistant(_) => "{{~/assistant}}"@,
        ChatMessage::System(_) => "<</SYS>>"@,
    }
}

/// The marker that begins each line of retrieved evidence.
pub open spec fn citation_marker() -> Seq<char> {
    "[WEB_RESULT"@
}

/// A line whose content, after leading whitespace, begins with the citation marker.
pub open spec fn is_citation_line(line: Seq<char>) -> bool {
    has_prefix(trim_start(line), citation_marker())
}

/// `s` without its citation lines; each such line goes with the newline that ends it.
pub open spec fn strip_citations(s: Seq<char>) -> Seq<char>
    decreases s.len(),
{
    let n = first_occ(s, seq!['\n'], 0);
    if n < 0 || n >= s.len() {
        if is_citation_line(s) {
            Seq::empty()
        } else {
            s
        }
    } else if is_citation_line(s.subrange(0, n)) {
        strip_citations(s.subrange(n + 1, s.len() as int))
    } else {
        s.subrange(0, n + 1) + strip_citations(s.subrange(n + 1, s.len() as int))
    }
}

/// The transcript of `ms`: each turn's text, without citation lines, between
/// the delimiters of its role.
pub open spec fn render(ms: Seq<ChatMessage>) -> Seq<char>
    decreases ms.len(),
{
    if ms.len() == 0 {
        Seq::empty()
    } else {
        render(ms.drop_last()) + role_start(ms.last()) + strip_citations(ms.last().text_view())
            + role_end(ms.last())
    }
}

fn role_delimiters(m: &ChatMessage) -> (r: (&'static str, &'static str))
    ensures
        r.0@ == role_start(*m),
        r.1@ == role_end(*m),
{
    match m {
        ChatMessage::User(_) => ("{{~#user~}}", "{{~/user}}"),
        ChatMessage::Assistant(_) => ("{{~#assistant}}", "{{~/assistant}}"),
        ChatMessage::System(_) => ("<<SYS>>", "<</SYS>>"),
    }
}

fn is_citation_in(v: &Vec<char>, lo: usize, hi: usize, marker: &Vec<char>) -> (r: bool)
    requires
        lo <= hi <= v.len(),
        marker@ == citation_marker(),
    ensures
        r == is_citation_line(v@.subrange(lo as int, hi as int)),
{
    let a = trim_start_bound(v, lo, hi);
    if marker.len() > hi - a {
        return false;
    }
    let r = matches_at(v, marker, a);
    assert(v@.subrange(a as int, hi as int).subrange(0, marker.len() as int) =~= v@.subrange(
        a as int,
        a + marker.len(),
    ));
    r
}

/// `s` without the lines that cite retrieved evidence.
pub fn strip_citation_lines(s: &str) -> (r: String)
    ensures
        r@ == strip_citations(s@),
{
    let v = chars_of(s);
    let n = v.len();
    let marker = chars_of("[WEB_RESULT");
    let newline: Vec<char> = vec!['\n'];
    let mut out = String::new();
    let mut pos: usize = 0;
    assert(v@.subrange(0, n as int) =~= v@);
    loop
        invariant
            pos <= n == v.len(),
            v@ == s@,
            marker@ == citation_marker(),
            newline@ == seq!['\n'],
            out@ + strip_citations(v@.subrange(pos as int, n as int)) == strip_citations(s@),
        decreases n - pos,
    {
        let ghost sub = v@.subrange(pos as int, n as int);
        match find_in(&v, pos, n, &newline) {
            Some(i) => {
                assert(sub.subrange(0, i - pos) =~= v@.subrange(pos as int, i as int));
                assert(sub.subrange(i - pos + 1, sub.len() as int) =~= v@.subrange(
                    i + 1,
                    n as int,
                ));
                assert(sub.subrange(0, i - pos + 1) =~= v@.subrange(pos as int, i + 1));
                if !is_citation_in(&v, pos, i, &marker) {
                    out.append(s.substring_char(pos, i + 1));
                }
                assert(out@ + strip_citations(v@.subrange(i + 1, n as int)) =~= strip_citations(
                    s@,
                ));
                pos = i + 1;
            },
            None => {
                if !is_citation_in(&v, pos, n, &marker) {
                    out.append(s.substring_char(pos, n));
                }
                assert(out@ =~= strip_citations(s@));
                return out;
            },
        }
    }
}

/// `b` has the turns of `a`, and their metadata, but for the last turn.
pub open spec fn keeps_earlier_turns(a: &Conversation, b: &Conversation) -> bool {
    &&& b.turns().len() == a.turns().len()
    &&& forall|i: int| 0 <= i < a.turns().len() - 1 ==> #[trigger] b.turns()[i] == a.turns()[i]
    &&& forall|i: int| 0 <= i < a.turns().len() - 1 ==> #[trigger] b.meta_view(i) == a.meta_view(i)
}

/// The turns of a conversation, each with the metadata recorded for it.
pub struct Conversation {
    messages: Vec<ChatMessage>,
    metadata: Vec<Variables>,
}

impl Conversation {
    pub closed spec fn wf(&self) -> bool {
        &&& self.messages.len() == self.metadata.len()
        &&& forall|i: int| 0 <= i < self.metadata.len() ==> (#[trigger] self.metadata@[i]).wf()
    }

    pub closed spec fn turns(&self) -> Seq<ChatMessage> {
        self.messages@
    }

    /// The metadata recorded for the turn at position `i`.
    pub closed spec fn meta_view(&self, i: int) -> Map<Seq<char>, Seq<char>> {
        self.metadata@[i]@
    }

    pub fn new() -> (r: Conversation)
        ensures
            r.wf(),
            r.turns() == Seq::<ChatMessage>::empty(),
    {
        Conversation { messages: Vec::new(), metadata: Vec::new() }
    }

    pub fn messages(&self) -> (r: &[ChatMessage])
        ensures
            r@ == self.turns(),
    {
        self.messages.as_slice()
    }

    pub fn len(&self) -> (r: usize)
        requires
            self.wf(),
        ensures
            r == self.turns().len(),
    {
        self.messages.len()
    }

    /// Appends a turn with no metadata.
    pub fn add_message(&mut self, message: ChatMessage)
        requires
            old(self).wf(),
        ensures
            final(self).wf(),
            final(self).turns() == old(self).turns().push(message),
            final(self).meta_view(old(self).turns().len() as int) == Map::<
                Seq<char>,
                Seq<char>,
            >::empty(),
            forall|i: int|
                0 <= i < old(self).turns().len() ==> #[trigger] final(self).meta_view(i)
                    == old(self).meta_view(i),
    {
        self.add_message_with_metadata(message, Variables::new());
    }

    /// Appends a turn with the given metadata.
    pub fn add_message_with_metadata(&mut self, message: ChatMessage, metadata: Variables)
        requires
            old(self).wf(),
            metadata.wf(),
        ensures
            final(self).wf(),
            final(self).turns() == old(self).turns().push(message),
            final(self).meta_view(old(self).turns().len() as int) == metadata@,
            forall|i: int|
                0 <= i < old(self).turns().len() ==> #[trigger] final(self).meta_view(i)
                    == old(self).meta_view(i),
    {
        self.messages.push(message);
        self.metadata.push(metadata);
        assert forall|i: int| 0 <= i < self.metadata.len() implies (#[trigger] self.metadata@[i]).wf() by {
            if i < old(self).metadata.len() {
                assert(self.metadata@[i] == old(self).metadata@[i]);
            }
        }
    }

    /// Appends `text` to the last turn, keeping its role.
    pub fn append_to_last(&mut self, text: &str)
        requires
            old(self).wf(),
            old(self).turns().len() > 0,
        ensures
            final(self).wf(),
            final(self).turns().len() == old(self).turns().len(),
            final(self).turns().last().text_view() == old(self).turns().last().text_view() + text@,
            final(self).turns().last() is User <==> old(self).turns().last() is User,
            final(self).turns().last() is Assistant <==> old(self).turns().last() is Assistant,
            forall|i: int|
                0 <= i < old(self).turns().len() - 1 ==> #[trigger] final(self).turns()[i]
                    == old(self).turns()[i],
            forall|i: int|
                0 <= i < old(self).turns().len() ==> #[trigger] final(self).meta_view(i)
                    == old(self).meta_view(i),
    {
        let last = self.messages.len() - 1;
        let mut grown = match &self.messages[last] {
            ChatMessage::User(t) => ChatMessage::User(t.clone()),
            ChatMessage::Assistant(t) => ChatMessage::Assistant(t.clone()),
            ChatMessage::System(t) => ChatMessage::System(t.clone()),
        };
        match &mut grown {
            ChatMessage::User(t) => t.append(text),
            ChatMessage::Assistant(t) => t.append(text),
            ChatMessage::System(t) => t.append(text),
        }
        self.messages.set(last, grown);
    }

    /// Records `value` under `key` in the metadata of the turn at position `i`.
    pub fn set_metadata(&mut self, i: usize, key: String, value: String)
        requires
            old(self).wf(),
            i < old(self).turns().len(),
        ensures
            final(self).wf(),
            final(self).turns() == old(self).turns(),
            final(self).meta_view(i as int) == old(self).meta_view(i as int).insert(key@, value@),
            forall|j: int|
                0 <= j < old(self).turns().len() && j != i ==> #[trigger] final(self).meta_view(j)
                    == old(self).meta_view(j),
    {
        let mut m = Variables::new();
        std::mem::swap(&mut m, &mut self.metadata[i]);
        m.insert(key, value);
        self.metadata.set(i, m);
        assert forall|j: int| 0 <= j < self.metadata.len() implies (#[trigger] self.metadata@[j]).wf() by {
            if j != i {
                assert(self.metadata@[j] == old(self).metadata@[j]);
            }
        }
    }

    /// The metadata recorded for the turn at position `i`.
    pub fn metadata(&self, i: usize) -> (r: &Variables)
        requires
            self.wf(),
            i < self.turns().len(),
        ensures
            r.wf(),
            r@ == self.meta_view(i as int),
    {
        &self.metadata[i]
    }

    /// The transcript used as the history parameter of a prompt.
    pub fn build_history(&self) -> (r: String)
        ensures
            r@ == render(self.turns()),
    {
        let mut result = String::new();
        let mut i: usize = 0;
        while i < self.messages.len()
            invariant
                i <= self.messages.len(),
                result@ == render(self.messages@.take(i as int)),
            decreases self.messages.len() - i,
        {
            let message = &self.messages[i];
            let (start, end) = role_delimiters(message);
            let text = strip_citation_lines(message.text());
            result.append(start);
            result.append(text.as_str());
            result.append(end);
            assert(self.messages@.take(i + 1).drop_last() =~= self.messages@.take(i as int));
            i = i + 1;
        }
        assert(self.messages@.take(i as int) =~= self.messages@);
        result
    }
}

} // verus!
