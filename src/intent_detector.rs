//! Classification of the user's intent among named candidates.

use vstd::prelude::*;
use crate::conversation::{render, Conversation};
use crate::error::AgentError;
use crate::model_client::{
    is_list_param, GuidanceRequest, GuidanceRequestBuilder, GuidanceResponse, ParamValue,
};
use crate::text::{replace_all, replace_str};

verus! {

/// A candidate intent.
#[derive(Debug)]
pub struct Intent {
    name: String,
    description: String,
}

impl Intent {
    pub closed spec fn name_view(&self) -> Seq<char> {
        self.name@
    }

    pub closed spec fn description_view(&self) -> Seq<char> {
        self.description@
    }

    pub fn new(name: String, description: String) -> (r: Intent)
        ensures
            r.name_view() == name@,
            r.description_view() == description@,
    {
        Intent { name, description }
    }

    pub fn name(&self) -> (r: &str)
        ensures
            r@ == self.name_view(),
    {
        self.name.as_str()
    }

    pub fn description(&self) -> (r: &str)
        ensures
            r@ == self.description_view(),
    {
        self.description.as_str()
    }
}

/// `fields` is the record of `intent`: its name, then its description.
pub open spec fn is_intent_record(fields: Seq<(String, String)>, intent: Intent) -> bool {
    &&& fields.len() == 2
    &&& fields[0].0@ == "name"@ && fields[0].1@ == intent.name_view()
    &&& fields[1].0@ == "description"@ && fields[1].1@ == intent.description_view()
}

/// Asks the backend which of the valid intents the conversation shows.
pub struct IntentDetector {
    valid_intents: Vec<Intent>,
    prompt: String,
}

impl IntentDetector {
    pub closed spec fn intents_view(&self) -> Seq<Intent> {
        self.valid_intents@
    }

    pub closed spec fn prompt_view(&self) -> Seq<char> {
        self.prompt@
    }

    pub fn new(valid_intents: Vec<Intent>, prompt: String) -> (r: IntentDetector)
        ensures
            r.intents_view() == valid_intents@,
            r.prompt_view() == prompt@,
    {
        IntentDetector { valid_intents, prompt }
    }

    /// The request that asks for the intent: the prompt with the rendered
    /// history in place of `{{history}}`, the intents as records and their names
    /// as a list.
    pub fn build_request(&self, conversation: &Conversation) -> (r: GuidanceRequest)
        ensures
            r.template_view() == replace_all(self.prompt_view(), "{{history}}"@, render(conversation.turns())),
            r.params_view().contains_key("intents"@),
            match r.params_view()["intents"@] {
                ParamValue::Records(records) => records.len() == self.intents_view().len()
                    && forall|j: int|
                    0 <= j < records.len() ==> is_intent_record(
                        (#[trigger] records@[j])@,
                        self.intents_view()[j],
                    ),
                _ => false,
            },
            is_list_param(
                r.params_view(),
                "intent_names"@,
                self.intents_view().map_values(|i: Intent| i.name_view()),
            ),
    {
        let history = conversation.build_history();
        let prompt = replace_str(self.prompt.as_str(), "{{history}}", history.as_str());
        let mut records: Vec<Vec<(String, String)>> = Vec::new();
        let mut names: Vec<String> = Vec::new();
        let mut i: usize = 0;
        while i < self.valid_intents.len()
            invariant
                i <= self.valid_intents.len(),
                names.len() == i,
                records.len() == i,
                forall|j: int| 0 <= j < i ==> (#[trigger] names@[j])@ == self.valid_intents@[j].name_view(),
                forall|j: int| 0 <= j < i ==> is_intent_record((#[trigger] records@[j])@, self.valid_intents@[j]),
            decreases self.valid_intents.len() - i,
        {
            let intent = &self.valid_intents[i];
            let mut record: Vec<(String, String)> = Vec::new();
            record.push(("name".to_owned(), intent.name.clone()));
            record.push(("description".to_owned(), intent.description.clone()));
            records.push(record);
            names.push(intent.name.clone());
            i = i + 1;
        }
        let request = GuidanceRequestBuilder::new(prompt).with_object_parameter(
            "intents".to_owned(),
            records,
        ).with_parameter_list("intent_names".to_owned(), names).build();
        proof {
            reveal_strlit("intents");
            reveal_strlit("intent_names");
            assert("intents"@.len() != "intent_names"@.len());
        }
        request
    }

    /// The intent that the backend selected.
    pub fn intent_of(response: &GuidanceResponse) -> (r: Result<String, AgentError>)
        requires
            response.wf(),
        ensures
            match r {
                Ok(v) => response.vars_view().contains_key("intent"@) && v@ == response.vars_view()["intent"@],
                Err(e) => !response.vars_view().contains_key("intent"@) && e is ProtocolViolation,
            },
    {
        match response.expect_variable("intent") {
            Ok(v) => Ok(v.to_owned()),
            Err(e) => Err(e),
        }
    }
}

} // verus!
