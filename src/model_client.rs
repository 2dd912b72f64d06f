//! Requests to and responses from the generation and embeddings backends.

use vstd::prelude::*;
use crate::error::AgentError;
use crate::vars::{concat_values, lemma_merge_all_appends, merge_all, merge_vars, Variables};

verus! {

/// A generation response: accumulated text and named variables.
#[derive(Debug)]
pub struct GuidanceResponse {
    text: String,
    variables: Variables,
}

impl GuidanceResponse {
    pub closed spec fn wf(&self) -> bool {
        self.variables.wf()
    }

    pub closed spec fn text_view(&self) -> Seq<char> {
        self.text@
    }

    pub closed spec fn vars_view(&self) -> Map<Seq<char>, Seq<char>> {
        self.variables@
    }

    /// An empty response: no text, no variables.
    pub fn new() -> (r: GuidanceResponse)
        ensures
            r.wf(),
            r.text_view() == Seq::<char>::empty(),
            r.vars_view() == Map::<Seq<char>, Seq<char>>::empty(),
    {
        GuidanceResponse { text: String::new(), variables: Variables::new() }
    }

    pub fn from_parts(text: String, variables: Variables) -> (r: GuidanceResponse)
        requires
            variables.wf(),
        ensures
            r.wf(),
            r.text_view() == text@,
            r.vars_view() == variables@,
    {
        GuidanceResponse { text, variables }
    }

    pub fn text(&self) -> (r: &str)
        ensures
            r@ == self.text_view(),
    {
        self.text.as_str()
    }

    pub fn variables(&self) -> (r: &Variables)
        requires
            self.wf(),
        ensures
            r.wf(),
            r@ == self.vars_view(),
    {
        &self.variables
    }

    /// The variable named `key`, if the response carries it.
    pub fn variable(&self, key: &str) -> (r: Option<&str>)
        requires
            self.wf(),
        ensures
            match r {
                Some(v) => self.vars_view().contains_key(key@) && self.vars_view()[key@] == v@,
                None => !self.vars_view().contains_key(key@),
            },
    {
        match self.variables.get(key) {
            Some(v) => Some(v.as_str()),
            None => None,
        }
    }

    /// The variable named `key`; its absence violates the protocol.
    pub fn expect_variable(&self, key: &str) -> (r: Result<&str, AgentError>)
        requires
            self.wf(),
        ensures
            match r {
                Ok(v) => self.vars_view().contains_key(key@) && self.vars_view()[key@] == v@,
                Err(e) => !self.vars_view().contains_key(key@) && match e {
                    AgentError::ProtocolViolation(name) => name@ == key@,
                    _ => false,
                },
            },
    {
        match self.variables.get(key) {
            Some(v) => Ok(v.as_str()),
            None => Err(AgentError::ProtocolViolation(key.to_owned())),
        }
    }

    /// Merges `delta` in: its text is appended, and each of its variables is
    /// appended to the variable of the same name.
    pub fn apply_delta(&mut self, delta: GuidanceResponse)
        requires
            old(self).wf(),
            delta.wf(),
        ensures
            final(self).wf(),
            final(self).text_view() == old(self).text_view() + delta.text_view(),
            final(self).vars_view() == merge_vars(old(self).vars_view(), delta.vars_view()),
    {
        self.text.append(delta.text.as_str());
        self.variables.merge(&delta.variables);
    }
}

/// One event of a generation stream.
#[derive(Debug)]
pub enum StreamEvent {
    /// The stream opened; it carries nothing.
    Open,
    /// A delta of the response.
    Message(GuidanceResponse),
    /// The stream ended, by closing or by a transport failure.
    End,
}

/// Takes one stream event into `acc`: a delta is merged, the opening event
/// is ignored, and the end stops the stream, keeping what was merged so far.
/// Returns whether more events are to be read.
pub fn accumulate_event(acc: &mut GuidanceResponse, event: StreamEvent) -> (more: bool)
    requires
        old(acc).wf(),
        event matches StreamEvent::Message(d) ==> d.wf(),
    ensures
        final(acc).wf(),
        match event {
            StreamEvent::Message(d) => more && final(acc).text_view() == old(acc).text_view()
                + d.text_view() && final(acc).vars_view() == merge_vars(
                old(acc).vars_view(),
                d.vars_view(),
            ),
            StreamEvent::Open => more && final(acc).text_view() == old(acc).text_view()
                && final(acc).vars_view() == old(acc).vars_view(),
            StreamEvent::End => !more && final(acc).text_view() == old(acc).text_view()
                && final(acc).vars_view() == old(acc).vars_view(),
        },
{
    match event {
        StreamEvent::Open => true,
        StreamEvent::Message(d) => {
            acc.apply_delta(d);
            true
        },
        StreamEvent::End => false,
    }
}

/// Some event of `evs` ends the stream.
pub open spec fn stream_ended(evs: Seq<StreamEvent>) -> bool {
    exists|i: int| 0 <= i < evs.len() && #[trigger] evs[i] is End
}

/// Every delta that `evs` carries is well formed.
pub open spec fn events_wf(evs: Seq<StreamEvent>) -> bool {
    forall|i: int| 0 <= i < evs.len() ==> (#[trigger] evs[i] matches StreamEvent::Message(d) ==> d.wf())
}

/// The variables of each delta of `evs` that comes before the stream ends, in order.
pub open spec fn stream_vars(evs: Seq<StreamEvent>) -> Seq<Map<Seq<char>, Seq<char>>>
    decreases evs.len(),
{
    if evs.len() == 0 {
        Seq::empty()
    } else if stream_ended(evs.drop_last()) {
        stream_vars(evs.drop_last())
    } else {
        match evs.last() {
            StreamEvent::Message(d) => stream_vars(evs.drop_last()).push(d.vars_view()),
            _ => stream_vars(evs.drop_last()),
        }
    }
}

/// The text of each delta of `evs` that comes before the stream ends, joined.
pub open spec fn stream_text(evs: Seq<StreamEvent>) -> Seq<char>
    decreases evs.len(),
{
    if evs.len() == 0 {
        Seq::empty()
    } else if stream_ended(evs.drop_last()) {
        stream_text(evs.drop_last())
    } else {
        match evs.last() {
            StreamEvent::Message(d) => stream_text(evs.drop_last()) + d.text_view(),
            _ => stream_text(evs.drop_last()),
        }
    }
}

/// What a stream of events merges to: starting from an empty response, each
/// delta before the end is applied in order; the opening event and whatever
/// follows the end change nothing.
pub fn collect_stream(events: Vec<StreamEvent>) -> (r: GuidanceResponse)
    requires
        events_wf(events@),
    ensures
        r.wf(),
        r.text_view() == stream_text(events@),
        r.vars_view() == merge_all(stream_vars(events@)),
{
    let ghost all = events@;
    let mut rest = events;
    let mut acc = GuidanceResponse::new();
    let mut more = true;
    let mut i: usize = 0;
    let n = rest.len();
    assert(all.skip(0) =~= all);
    assert(all.take(0) =~= Seq::<StreamEvent>::empty());
    while i < n
        invariant
            n == all.len(),
            i <= n,
            rest@ == all.skip(i as int),
            events_wf(all),
            acc.wf(),
            more == !stream_ended(all.take(i as int)),
            acc.text_view() == stream_text(all.take(i as int)),
            acc.vars_view() == merge_all(stream_vars(all.take(i as int))),
        decreases n - i,
    {
        let event = rest.remove(0);
        assert(rest@ =~= all.skip(i + 1));
        assert(event == all[i as int]);
        let ghost pre = all.take(i as int);
        let ghost post = all.take(i + 1);
        assert(post.drop_last() =~= pre);
        assert(post.last() == all[i as int]);
        proof {
            if stream_ended(pre) {
                let j = choose|j: int| 0 <= j < pre.len() && #[trigger] pre[j] is End;
                assert(post[j] == pre[j]);
            }
            if stream_ended(post) && !stream_ended(pre) {
                let j = choose|j: int| 0 <= j < post.len() && #[trigger] post[j] is End;
                if j < pre.len() {
                    assert(pre[j] == post[j]);
                }
            }
            if event is End {
                assert(post[i as int] is End);
            }
            assert(events_wf(all) ==> (all[i as int] matches StreamEvent::Message(d) ==> d.wf()));
        }
        if more {
            let ghost before = stream_vars(pre);
            more = accumulate_event(&mut acc, event);
            proof {
                if let StreamEvent::Message(d) = all[i as int] {
                    assert(stream_vars(post) == before.push(d.vars_view()));
                    assert(before.push(d.vars_view()).drop_last() =~= before);
                }
            }
        }
        i = i + 1;
    }
    assert(all.take(n as int) =~= all);
    acc
}

/// Collecting a stream only appends: a variable is present exactly when some
/// delta before the end carried it, and its text is what those deltas carried
/// for it, joined in stream order.
pub proof fn lemma_stream_appends(evs: Seq<StreamEvent>, k: Seq<char>)
    ensures
        merge_all(stream_vars(evs)).contains_key(k) <==> exists|i: int|
            0 <= i < stream_vars(evs).len() && #[trigger] stream_vars(evs)[i].contains_key(k),
        merge_all(stream_vars(evs)).contains_key(k) ==> merge_all(stream_vars(evs))[k]
            == concat_values(stream_vars(evs), k),
{
    lemma_merge_all_appends(stream_vars(evs), k);
}

/// What a streaming caller does with one event.
#[derive(Debug)]
pub enum DeltaStep {
    /// Nothing to hand on; read the next event.
    Skip,
    /// Hand this delta on.
    Yield(GuidanceResponse),
    /// The stream is over.
    Stop,
}

/// The opening event is skipped, a delta is handed on, the end stops.
pub fn delta_step(event: StreamEvent) -> (r: DeltaStep)
    ensures
        match event {
            StreamEvent::Open => r is Skip,
            StreamEvent::End => r is Stop,
            StreamEvent::Message(d) => r == DeltaStep::Yield(d),
        },
{
    match event {
        StreamEvent::Open => DeltaStep::Skip,
        StreamEvent::Message(d) => DeltaStep::Yield(d),
        StreamEvent::End => DeltaStep::Stop,
    }
}

/// The value of a request parameter: one text or a list of texts.
#[derive(Debug)]
pub enum ParamValue {
    Text(String),
    List(Vec<String>),
    /// A list of records, each a list of named text fields.
    Records(Vec<Vec<(String, String)>>),
}

/// The parameters that a list of entries denotes; a later entry for a name wins.
pub open spec fn params_of(e: Seq<(String, ParamValue)>) -> Map<Seq<char>, ParamValue>
    decreases e.len(),
{
    if e.len() == 0 {
        Map::empty()
    } else {
        params_of(e.drop_last()).insert(e.last().0@, e.last().1)
    }
}

/// `p` holds the text `v` under `k`.
pub open spec fn is_text_param(p: Map<Seq<char>, ParamValue>, k: Seq<char>, v: Seq<char>) -> bool {
    p.contains_key(k) && match p[k] {
        ParamValue::Text(s) => s@ == v,
        _ => false,
    }
}

/// `p` holds the list of texts `vs` under `k`.
pub open spec fn is_list_param(p: Map<Seq<char>, ParamValue>, k: Seq<char>, vs: Seq<Seq<char>>) -> bool {
    p.contains_key(k) && match p[k] {
        ParamValue::List(l) => l@.len() == vs.len() && forall|i: int|
            0 <= i < vs.len() ==> (#[trigger] l@[i])@ == vs[i],
        _ => false,
    }
}

/// A generation request: a template and its named parameters.
#[derive(Debug)]
pub struct GuidanceRequest {
    template: String,
    parameters: Vec<(String, ParamValue)>,
}

impl GuidanceRequest {
    pub closed spec fn template_view(&self) -> Seq<char> {
        self.template@
    }

    pub closed spec fn params_view(&self) -> Map<Seq<char>, ParamValue> {
        params_of(self.parameters@)
    }

    pub fn template(&self) -> (r: &str)
        ensures
            r@ == self.template_view(),
    {
        self.template.as_str()
    }

    /// The parameters in the order they were set; where a name was set twice,
    /// the later entry is the one that counts.
    pub fn parameters(&self) -> (r: &Vec<(String, ParamValue)>)
        ensures
            params_of(r@) == self.params_view(),
    {
        &self.parameters
    }
}

/// Builds a [`GuidanceRequest`].
#[derive(Debug)]
pub struct GuidanceRequestBuilder {
    template: String,
    parameters: Vec<(String, ParamValue)>,
}

impl GuidanceRequestBuilder {
    pub closed spec fn template_view(&self) -> Seq<char> {
        self.template@
    }

    pub closed spec fn params_view(&self) -> Map<Seq<char>, ParamValue> {
        params_of(self.parameters@)
    }

    pub fn new(template: String) -> (r: GuidanceRequestBuilder)
        ensures
            r.template_view() == template@,
            r.params_view() == Map::<Seq<char>, ParamValue>::empty(),
    {
        GuidanceRequestBuilder { template, parameters: Vec::new() }
    }

    /// Sets the text parameter `key`.
    pub fn with_parameter(self, key: String, value: String) -> (r: GuidanceRequestBuilder)
        ensures
            r.template_view() == self.template_view(),
            r.params_view() == self.params_view().insert(key@, ParamValue::Text(value)),
    {
        let mut b = self;
        let ghost k = key@;
        b.parameters.push((key, ParamValue::Text(value)));
        assert(b.parameters@.drop_last() =~= self.parameters@);
        b
    }

    /// Sets the list parameter `key`.
    pub fn with_parameter_list(self, key: String, value: Vec<String>) -> (r: GuidanceRequestBuilder)
        ensures
            r.template_view() == self.template_view(),
            r.params_view() == self.params_view().insert(key@, ParamValue::List(value)),
    {
        let mut b = self;
        b.parameters.push((key, ParamValue::List(value)));
        assert(b.parameters@.drop_last() =~= self.parameters@);
        b
    }

    /// Sets the record-list parameter `key`.
    pub fn with_object_parameter(self, key: String, value: Vec<Vec<(String, String)>>) -> (r:
        GuidanceRequestBuilder)
        ensures
            r.template_view() == self.template_view(),
            r.params_view() == self.params_view().insert(key@, ParamValue::Records(value)),
    {
        let mut b = self;
        b.parameters.push((key, ParamValue::Records(value)));
        assert(b.parameters@.drop_last() =~= self.parameters@);
        b
    }

    pub fn build(self) -> (r: GuidanceRequest)
        ensures
            r.template_view() == self.template_view(),
            r.params_view() == self.params_view(),
    {
        GuidanceRequest { template: self.template, parameters: self.parameters }
    }
}

/// A request for one embedding per input text, in the backend's own shape.
#[derive(Debug)]
pub struct GuidanceEmbeddingsRequest {
    pub input: Vec<String>,
}

/// Builds a [`GuidanceEmbeddingsRequest`].
#[derive(Debug)]
pub struct GuidanceEmbeddingsRequestBuilder {
    pub input: Vec<String>,
}

impl GuidanceEmbeddingsRequestBuilder {
    pub fn new() -> (r: GuidanceEmbeddingsRequestBuilder)
        ensures
            r.input@ == Seq::<String>::empty(),
    {
        GuidanceEmbeddingsRequestBuilder { input: Vec::new() }
    }

    pub fn add_input(self, input: String) -> (r: GuidanceEmbeddingsRequestBuilder)
        ensures
            r.input@ == self.input@.push(input),
    {
        let mut b = self;
        b.input.push(input);
        b
    }

    pub fn add_inputs(self, inputs: Vec<String>) -> (r: GuidanceEmbeddingsRequestBuilder)
        ensures
            r.input@ == self.input@ + inputs@,
    {
        let mut b = self;
        let mut more = inputs;
        b.input.append(&mut more);
        b
    }

    pub fn build(self) -> (r: GuidanceEmbeddingsRequest)
        ensures
            r.input@ == self.input@,
    {
        GuidanceEmbeddingsRequest { input: self.input }
    }
}

/// A request for one embedding per input text.
#[derive(Debug)]
pub struct EmbeddingsRequest {
    pub input: Vec<String>,
}

impl EmbeddingsRequest {
    pub fn new(input: Vec<String>) -> (r: EmbeddingsRequest)
        ensures
            r.input@ == input@,
    {
        EmbeddingsRequest { input }
    }
}

} // verus!
