//! Talking to Ollama: requests, streamed replies, and what to do with an answer.

use vstd::prelude::*;

use crate::chat::{OllamaChatMessage, OllamaChatMessageView};
use crate::lines::{drop_blank, joined, lines, lines_of, not_blank, pieces_from, pieces_of};
use crate::replace::{between_matches, law_replaced, replaced, substitute};
use crate::sorting::item_views;
use crate::text::{contains, contains_text, option_views, prefix, same_text, take_chars, views};
use crate::tools::{definition_views, ToolDefinition, ToolDefinitionView};

verus! {

/// A piece of a streamed reply.
#[derive(Debug)]
pub struct OllamaChunk {
    pub response: String,
    pub done: bool,
}

/// A request for a reply to a prompt.
#[derive(Debug)]
pub struct OllamaRequest {
    pub model: String,
    pub prompt: String,
}

/// A request for a reply to a conversation.
#[derive(Debug)]
pub struct OllamaChatRequest {
    pub model: String,
    pub messages: Vec<OllamaChatMessage>,
    pub stream: bool,
    pub tools: Option<Vec<ToolDefinition>>,
}

/// A reply to a conversation.
#[derive(Debug)]
pub struct OllamaChatResponse {
    pub message: OllamaChatMessage,
    pub done: bool,
}

/// What an [`OllamaChatRequest`] stands for.
pub struct OllamaChatRequestView {
    pub model: Seq<char>,
    pub messages: Seq<OllamaChatMessageView>,
    pub stream: bool,
    pub tools: Option<Seq<ToolDefinitionView>>,
}

impl View for OllamaChatRequest {
    type V = OllamaChatRequestView;

    open spec fn view(&self) -> OllamaChatRequestView {
        OllamaChatRequestView {
            model: self.model@,
            messages: item_views(self.messages@),
            stream: self.stream,
            tools: tool_views(self.tools),
        }
    }
}

/// The views of tools that may be missing.
pub open spec fn tool_views(tools: Option<Vec<ToolDefinition>>) -> Option<Seq<ToolDefinitionView>> {
    match tools {
        Some(list) => Some(definition_views(list@)),
        None => None,
    }
}

// ---------------------------------------------------------------------------
// Addresses
// ---------------------------------------------------------------------------

/// The address at which a prompt is answered.
pub fn generate_url(ollama_url: &str) -> (url: String)
    ensures
        url@ == ollama_url@ + "/api/generate"@,
{
    let mut url: String = ollama_url.to_owned();
    url.push_str("/api/generate");
    url
}

/// The address at which a conversation is answered.
pub fn chat_url(ollama_url: &str) -> (url: String)
    ensures
        url@ == ollama_url@ + "/api/chat"@,
{
    let mut url: String = ollama_url.to_owned();
    url.push_str("/api/chat");
    url
}

/// The address at which a model is described.
pub fn show_url(ollama_url: &str) -> (url: String)
    ensures
        url@ == ollama_url@ + "/api/show"@,
{
    let mut url: String = ollama_url.to_owned();
    url.push_str("/api/show");
    url
}

// ---------------------------------------------------------------------------
// Streamed replies
// ---------------------------------------------------------------------------

/// `response` without the tags around thoughts.
pub open spec fn cleaned(response: Seq<char>) -> Seq<char> {
    replaced(replaced(response, "<think>"@, seq![]), "</think>"@, seq![])
}

/// The texts of the pieces of a reply.
pub open spec fn responses(chunks: Seq<OllamaChunk>) -> Seq<Seq<char>> {
    Seq::new(chunks.len(), |i: int| chunks[i].response@)
}

/// The text that the pieces of a reply make up.
pub open spec fn reply_text(responses: Seq<Seq<char>>) -> Seq<char>
    decreases responses.len(),
{
    if responses.len() == 0 {
        seq![]
    } else {
        reply_text(responses.drop_last()) + cleaned(responses.last())
    }
}

/// The lines of a part of the stream that may hold a piece of the reply.
pub fn stream_lines(text: &str) -> (kept: Vec<String>)
    ensures
        views(kept@) == not_blank(lines(text@)),
{
    drop_blank(lines_of(text))
}

/// The lines of a part of the stream that may hold a piece of the reply, each with the
/// carriage return it may end in.
pub fn stream_pieces(text: &str) -> (kept: Vec<String>)
    ensures
        views(kept@) == not_blank(pieces_from(text@, 0)),
{
    drop_blank(pieces_of(text))
}

/// `response` without the tags around thoughts.
pub fn clean_response(response: &str) -> (clean: String)
    ensures
        clean@ == cleaned(response@),
{
    let opened = substitute(response, "<think>", "", true);
    proof {
        reveal_strlit("");
        assert(""@ =~= Seq::<char>::empty());
    }
    substitute(opened.as_str(), "</think>", "", true)
}

/// The text that pieces of a reply make up.
pub fn chunks_text(chunks: &Vec<OllamaChunk>) -> (text: String)
    ensures
        text@ == reply_text(responses(chunks@)),
{
    let mut text = String::new();
    let mut i: usize = 0;
    let ghost all = responses(chunks@);
    assert(all.take(0) =~= Seq::<Seq<char>>::empty());
    while i < chunks.len()
        invariant
            i <= chunks@.len(),
            all == responses(chunks@),
            text@ == reply_text(all.take(i as int)),
        decreases chunks@.len() - i,
    {
        proof {
            assert(all.take(i + 1).drop_last() =~= all.take(i as int));
            assert(all.take(i + 1).last() == chunks@[i as int].response@);
        }
        text.push_str(clean_response(chunks[i].response.as_str()).as_str());
        i = i + 1;
    }
    assert(all.take(chunks@.len() as int) =~= all);
    text
}

/// A reply that comes part by part is the reply that comes at once.
pub proof fn law_parts_make_up_the_reply(first: Seq<Seq<char>>, second: Seq<Seq<char>>)
    ensures
        reply_text(first + second) == reply_text(first) + reply_text(second),
    decreases second.len(),
{
    if second.len() == 0 {
        assert(first + second =~= first);
        assert(reply_text(first) + reply_text(second) =~= reply_text(first));
    } else {
        law_parts_make_up_the_reply(first, second.drop_last());
        assert((first + second).drop_last() =~= first + second.drop_last());
        assert(reply_text(first) + (reply_text(second.drop_last()) + cleaned(second.last()))
            =~= reply_text(first) + reply_text(second.drop_last()) + cleaned(second.last()));
    }
}

/// A piece of a reply without such tags is kept as it is.
pub proof fn law_plain_piece_kept(response: Seq<char>)
    requires
        !contains(response, "<think>"@),
        !contains(response, "</think>"@),
    ensures
        cleaned(response) == response,
{
    crate::text::lemma_find_from(response, "<think>"@, 0);
    crate::text::lemma_find_from(response, "</think>"@, 0);
    crate::replace::lemma_replaced_absent(response, "<think>"@, seq![]);
    crate::replace::lemma_replaced_absent(response, "</think>"@, seq![]);
}

/// From a piece of a reply the tags around thoughts are taken out, first those that open
/// one and then those that close one, and everything that stands between them is kept.
pub proof fn law_only_tags_are_taken_out(opened: Seq<Seq<char>>, closed: Seq<Seq<char>>)
    requires
        between_matches(opened, "<think>"@),
        between_matches(closed, "</think>"@),
        joined(closed, "</think>"@) == joined(opened, seq![]),
    ensures
        cleaned(joined(opened, "<think>"@)) == joined(closed, seq![]),
        reply_text(seq![joined(opened, "<think>"@)]) == joined(closed, seq![]),
        reply_text(seq![]) == Seq::<char>::empty(),
{
    law_replaced(opened, "<think>"@, seq![]);
    law_replaced(closed, "</think>"@, seq![]);
    let one = seq![joined(opened, "<think>"@)];
    reveal_with_fuel(reply_text, 2);
    assert(one.drop_last() =~= Seq::<Seq<char>>::empty());
    assert(reply_text(one) =~= cleaned(joined(opened, "<think>"@)));
}

/// The error when no connection could be made.
pub fn connect_error(reason: &str) -> (error: String)
    ensures
        error@ == "Failed to connect to Ollama: "@ + reason@,
{
    let mut error: String = "Failed to connect to Ollama: ".to_owned();
    error.push_str(reason);
    error
}

/// The error when a stream broke off.
pub fn stream_error(reason: &str) -> (error: String)
    ensures
        error@ == "Stream error: "@ + reason@,
{
    let mut error: String = "Stream error: ".to_owned();
    error.push_str(reason);
    error
}

// ---------------------------------------------------------------------------
// Conversations
// ---------------------------------------------------------------------------

/// A conversation that waits for its reply.
#[derive(Debug)]
pub struct Exchange {
    pub url: String,
    pub request: OllamaChatRequest,
}

/// What an [`Exchange`] stands for.
pub struct ExchangeView {
    pub url: Seq<char>,
    pub request: OllamaChatRequestView,
}

impl View for Exchange {
    type V = ExchangeView;

    open spec fn view(&self) -> ExchangeView {
        ExchangeView { url: self.url@, request: self.request@ }
    }
}

/// What came of sending a request, with texts of type `S`.
#[derive(Debug)]
pub enum AnswerOf<S> {
    /// It could not be sent.
    NotSent { reason: S },
    /// Its answer could not be read.
    NotRead { reason: S },
    /// It was answered.
    Received { success: bool, status: S, text: S },
}

/// What came of sending a request.
pub type Answer = AnswerOf<String>;

/// What an [`Answer`] stands for.
pub type AnswerView = AnswerOf<Seq<char>>;

impl View for AnswerOf<String> {
    type V = AnswerView;

    open spec fn view(&self) -> AnswerView {
        match *self {
            AnswerOf::NotSent { reason } => AnswerOf::NotSent { reason: reason@ },
            AnswerOf::NotRead { reason } => AnswerOf::NotRead { reason: reason@ },
            AnswerOf::Received { success, status, text } => AnswerOf::Received {
                success,
                status: status@,
                text: text@,
            },
        }
    }
}

/// Where a conversation stands.
#[derive(Debug)]
pub enum ExchangeStep {
    /// The request is to be sent.
    Send(Exchange),
    /// The text is to be read as a reply.
    Parse(String),
    /// It failed.
    Failed(String),
}

/// What an [`ExchangeStep`] stands for.
pub enum ExchangeStepView {
    Send(ExchangeView),
    Parse(Seq<char>),
    Failed(Seq<char>),
}

impl View for ExchangeStep {
    type V = ExchangeStepView;

    open spec fn view(&self) -> ExchangeStepView {
        match *self {
            ExchangeStep::Send(exchange) => ExchangeStepView::Send(exchange@),
            ExchangeStep::Parse(text) => ExchangeStepView::Parse(text@),
            ExchangeStep::Failed(error) => ExchangeStepView::Failed(error@),
        }
    }
}

/// The error that an answer other than success is.
pub open spec fn refusal(status: Seq<char>, text: Seq<char>) -> Seq<char> {
    "Ollama returned error "@ + status + ": "@ + text
}

/// Whether an error says that the model knows no tools.
pub open spec fn refuses_tools(error: Seq<char>) -> bool {
    contains(error, "does not support tools"@) || contains(error, "not supported"@)
}

/// The same conversation without tools.
pub open spec fn without_tools(exchange: ExchangeView) -> ExchangeView {
    ExchangeView {
        url: exchange.url,
        request: OllamaChatRequestView {
            model: exchange.request.model,
            messages: exchange.request.messages,
            stream: exchange.request.stream,
            tools: None,
        },
    }
}

/// How a conversation goes on when an answer came.
pub open spec fn exchange_next(exchange: ExchangeView, answer: AnswerView) -> ExchangeStepView {
    match answer {
        AnswerOf::NotSent { reason } => ExchangeStepView::Failed(
            "Failed to connect to Ollama: "@ + reason,
        ),
        AnswerOf::NotRead { reason } => ExchangeStepView::Failed(
            "Failed to read Ollama response body: "@ + reason,
        ),
        AnswerOf::Received { success, status, text } => if success {
            ExchangeStepView::Parse(text)
        } else if exchange.request.tools is Some && refuses_tools(refusal(status, text)) {
            ExchangeStepView::Send(without_tools(exchange))
        } else {
            ExchangeStepView::Failed(refusal(status, text))
        },
    }
}

/// A request is sent a second time only to a model that knows no tools, with nothing
/// changed but the tools, and never a third time.
pub proof fn law_one_retry(exchange: ExchangeView, first: AnswerView, second: AnswerView)
    ensures
        exchange_next(exchange, first) matches ExchangeStepView::Send(again) ==> {
            &&& exchange.request.tools is Some
            &&& again == without_tools(exchange)
            &&& exchange_next(again, second) !is Send
        },
        exchange.request.tools is None ==> exchange_next(exchange, first) !is Send,
{
}

/// What comes of an answer: one of success is read as it is. One that says that the model
/// knows no tools has the same conversation sent again without them, to the same address
/// and model and with the same messages. Every other answer, and none, is an error that
/// says why.
pub proof fn law_answers_are_told_apart(
    exchange: ExchangeView,
    success: bool,
    status: Seq<char>,
    text: Seq<char>,
    reason: Seq<char>,
)
    ensures
        ({
            let error = "Ollama returned error "@ + status + ": "@ + text;
            let no_tools = exchange.request.tools is Some && (contains(
                error,
                "does not support tools"@,
            ) || contains(error, "not supported"@));
            let step = exchange_next(exchange, AnswerOf::Received { success, status, text });
            &&& success ==> step == ExchangeStepView::Parse(text)
            &&& !success && !no_tools ==> step == ExchangeStepView::Failed(error)
            &&& !success && no_tools ==> (step matches ExchangeStepView::Send(again) && {
                &&& again.url == exchange.url
                &&& again.request.model == exchange.request.model
                &&& again.request.messages == exchange.request.messages
                &&& again.request.stream == exchange.request.stream
                &&& again.request.tools is None
            })
        }),
        exchange_next(exchange, AnswerOf::NotSent { reason }) == ExchangeStepView::Failed(
            "Failed to connect to Ollama: "@ + reason,
        ),
        exchange_next(exchange, AnswerOf::NotRead { reason }) == ExchangeStepView::Failed(
            "Failed to read Ollama response body: "@ + reason,
        ),
{
}

/// Begins a conversation: the request that is sent first.
pub fn chat_with_ollama(
    ollama_url: &str,
    model: &str,
    messages: Vec<OllamaChatMessage>,
    tools: Option<Vec<ToolDefinition>>,
) -> (exchange: Exchange)
    ensures
        exchange@ == (ExchangeView {
            url: ollama_url@ + "/api/chat"@,
            request: OllamaChatRequestView {
                model: model@,
                messages: item_views(messages@),
                stream: false,
                tools: tool_views(tools),
            },
        }),
{
    Exchange {
        url: chat_url(ollama_url),
        request: OllamaChatRequest { model: model.to_owned(), messages, stream: false, tools },
    }
}

/// A conversation is sent whole and at once to the model that was asked for, with all the
/// tools, at the address for conversations.
pub proof fn law_conversation_is_sent_whole(
    ollama_url: &str,
    model: &str,
    messages: Vec<OllamaChatMessage>,
    tools: Option<Vec<ToolDefinition>>,
    exchange: Exchange,
)
    requires
        call_ensures(chat_with_ollama, (ollama_url, model, messages, tools), exchange),
    ensures
        exchange@.url == ollama_url@ + "/api/chat"@,
        exchange@.request.model == model@,
        exchange@.request.messages == item_views(messages@),
        exchange@.request.tools == tool_views(tools),
        !exchange@.request.stream,
{
}

/// Goes on with a conversation when an answer came.
pub fn resume_exchange(exchange: Exchange, answer: &Answer) -> (step: ExchangeStep)
    ensures
        step@ == exchange_next(exchange@, answer@),
{
    match answer {
        AnswerOf::NotSent { reason } => ExchangeStep::Failed(connect_error(reason.as_str())),
        AnswerOf::NotRead { reason } => {
            let mut error: String = "Failed to read Ollama response body: ".to_owned();
            error.push_str(reason.as_str());
            ExchangeStep::Failed(error)
        },
        AnswerOf::Received { success, status, text } => {
            if *success {
                return ExchangeStep::Parse(text.clone());
            }
            let mut error: String = "Ollama returned error ".to_owned();
            error.push_str(status.as_str());
            error.push_str(": ");
            error.push_str(text.as_str());
            if exchange.request.tools.is_some() && (contains_text(
                error.as_str(),
                "does not support tools",
            ) || contains_text(error.as_str(), "not supported")) {
                let request = OllamaChatRequest {
                    model: exchange.request.model,
                    messages: exchange.request.messages,
                    stream: exchange.request.stream,
                    tools: None,
                };
                return ExchangeStep::Send(Exchange { url: exchange.url, request });
            }
            ExchangeStep::Failed(error)
        },
    }
}

/// The error when an answer cannot be read as a reply.
pub open spec fn parse_error(reason: Seq<char>, text: Seq<char>) -> Seq<char> {
    "Failed to parse Ollama response ("@ + reason + "): "@ + prefix(text, 500)
}

/// An answer that cannot be read is shown with the reason and its first 500 characters.
pub proof fn law_unreadable_answer_is_shown(reason: Seq<char>, head: Seq<char>, rest: Seq<char>)
    requires
        head.len() == 500 || (head.len() < 500 && rest.len() == 0),
    ensures
        parse_error(reason, head + rest) == "Failed to parse Ollama response ("@ + reason + "): "@
            + head,
{
    crate::text::law_prefix(head, rest, 500);
    if rest.len() == 0 {
        assert(head + rest =~= head);
    }
}

/// The reply that was read from the text of an answer, or the error that it could not be
/// read, with the beginning of the text.
pub fn parsed_reply(text: &str, parsed: Result<OllamaChatResponse, String>) -> (reply: Result<
    OllamaChatResponse,
    String,
>)
    ensures
        match parsed {
            Ok(response) => reply == Ok::<OllamaChatResponse, String>(response),
            Err(reason) => reply matches Err(error) && error@ == parse_error(reason@, text@),
        },
{
    match parsed {
        Ok(response) => Ok(response),
        Err(reason) => {
            let mut error: String = "Failed to parse Ollama response (".to_owned();
            error.push_str(reason.as_str());
            error.push_str("): ");
            error.push_str(take_chars(text, 500).as_str());
            Err(error)
        },
    }
}

// ---------------------------------------------------------------------------
// Vision
// ---------------------------------------------------------------------------

/// What is known of the models that were asked about: whether they take images.
#[derive(Debug)]
pub struct VisionCache {
    entries: Vec<(String, bool)>,
}

spec fn lookup(entries: Seq<(String, bool)>, model: Seq<char>) -> Option<bool>
    decreases entries.len(),
{
    if entries.len() == 0 {
        None
    } else if entries.last().0@ == model {
        Some(entries.last().1)
    } else {
        lookup(entries.drop_last(), model)
    }
}

impl View for VisionCache {
    type V = Map<Seq<char>, bool>;

    closed spec fn view(&self) -> Map<Seq<char>, bool> {
        Map::new(
            |model: Seq<char>| lookup(self.entries@, model) is Some,
            |model: Seq<char>| lookup(self.entries@, model)->0,
        )
    }
}

proof fn lemma_lookup_update(
    entries: Seq<(String, bool)>,
    at: int,
    new: (String, bool),
    model: Seq<char>,
)
    requires
        0 <= at < entries.len(),
        entries[at].0@ == new.0@,
        forall|j: int| at < j < entries.len() ==> (#[trigger] entries[j]).0@ != new.0@,
    ensures
        lookup(entries.update(at, new), model) == if model == new.0@ {
            Some(new.1)
        } else {
            lookup(entries, model)
        },
    decreases entries.len(),
{
    let last = entries.len() - 1;
    let changed = entries.update(at, new);
    if at == last {
        assert(changed.drop_last() =~= entries.drop_last());
    } else {
        assert(entries[last].0@ != new.0@);
        assert(changed.drop_last() =~= entries.drop_last().update(at, new));
        assert forall|j: int| at < j < last implies (#[trigger] entries.drop_last()[j]).0@
            != new.0@ by {
            assert(entries[j].0@ != new.0@);
        }
        lemma_lookup_update(entries.drop_last(), at, new, model);
    }
}

impl VisionCache {
    /// Nothing is known yet.
    pub fn new() -> (cache: VisionCache)
        ensures
            cache@ == Map::<Seq<char>, bool>::empty(),
    {
        let cache = VisionCache { entries: Vec::new() };
        assert(cache@ =~= Map::<Seq<char>, bool>::empty());
        cache
    }

    fn index_of(&self, model: &str) -> (found: Option<usize>)
        ensures
            match found {
                Some(i) => {
                    &&& i < self.entries@.len()
                    &&& self.entries@[i as int].0@ == model@
                    &&& lookup(self.entries@, model@) == Some(self.entries@[i as int].1)
                    &&& forall|j: int|
                        i < j < self.entries@.len() ==> (#[trigger] self.entries@[j]).0@ != model@
                },
                None => lookup(self.entries@, model@) is None,
            },
    {
        let mut i: usize = self.entries.len();
        assert(self.entries@.take(i as int) =~= self.entries@);
        while i > 0
            invariant
                i <= self.entries@.len(),
                lookup(self.entries@, model@) == lookup(self.entries@.take(i as int), model@),
                forall|j: int|
                    i <= j < self.entries@.len() ==> (#[trigger] self.entries@[j]).0@ != model@,
            decreases i,
        {
            let ghost seen = self.entries@.take(i as int);
            assert(seen.drop_last() =~= self.entries@.take(i - 1));
            assert(seen.last() == self.entries@[i - 1]);
            if same_text(self.entries[i - 1].0.as_str(), model) {
                return Some(i - 1);
            }
            i = i - 1;
        }
        None
    }

    /// What is known of `model`.
    pub fn get(&self, model: &str) -> (known: Option<bool>)
        ensures
            known == (if self@.contains_key(model@) {
                Some(self@[model@])
            } else {
                None
            }),
    {
        match self.index_of(model) {
            Some(i) => Some(self.entries[i].1),
            None => None,
        }
    }

    /// Keeps what was learned of `model`.
    pub fn insert(&mut self, model: &str, supports: bool)
        ensures
            final(self)@ == old(self)@.insert(model@, supports),
    {
        let ghost before = self.entries@;
        let ghost known = self@;
        let name: String = model.to_owned();
        let entry = (name, supports);
        let ghost new = entry;
        match self.index_of(model) {
            Some(i) => {
                self.entries.set(i, entry);
                assert forall|m: Seq<char>| #[trigger] lookup(self.entries@, m) == (if m
                    == new.0@ {
                    Some(new.1)
                } else {
                    lookup(before, m)
                }) by {
                    lemma_lookup_update(before, i as int, new, m);
                }
            },
            None => {
                self.entries.push(entry);
                assert(self.entries@.drop_last() =~= before);
            },
        }
        assert(self@ =~= known.insert(model@, supports));
    }
}

/// Whether a model with these capabilities takes images.
pub open spec fn takes_images(capabilities: Option<Seq<Seq<char>>>) -> bool {
    capabilities matches Some(list) && list.contains("vision"@)
}

/// A model takes images where vision stands among its capabilities, wherever that is; one
/// whose capabilities are not known takes none.
pub proof fn law_vision_is_a_capability(front: Seq<Seq<char>>, back: Seq<Seq<char>>)
    ensures
        takes_images(Some(front.push("vision"@) + back)),
        (forall|i: int| 0 <= i < front.len() ==> #[trigger] front[i] != "vision"@)
            ==> !takes_images(Some(front)),
        !takes_images(None),
{
    let list = front.push("vision"@) + back;
    assert(list[front.len() as int] == "vision"@);
}

fn holds_text(list: &Vec<String>, wanted: &str) -> (yes: bool)
    ensures
        yes == views(list@).contains(wanted@),
{
    let mut i: usize = 0;
    while i < list.len()
        invariant
            i <= list@.len(),
            forall|j: int| 0 <= j < i ==> (#[trigger] views(list@)[j]) != wanted@,
        decreases list@.len() - i,
    {
        assert(views(list@)[i as int] == list@[i as int]@);
        if same_text(list[i].as_str(), wanted) {
            return true;
        }
        i = i + 1;
    }
    false
}

fn lists_vision(capabilities: &Option<Vec<String>>) -> (yes: bool)
    ensures
        yes == takes_images(option_views(*capabilities)),
{
    match capabilities {
        None => false,
        Some(list) => holds_text(list, "vision"),
    }
}

/// How to find out whether a model takes images.
#[derive(Debug)]
pub enum VisionStep {
    /// It is known.
    Known(bool),
    /// Its description has to be asked for at this address.
    Ask(String),
}

/// Whether a model takes images, where that is known, or where to ask.
pub fn model_supports_vision(cache: &VisionCache, ollama_url: &str, model: &str) -> (step: VisionStep)
    ensures
        match step {
            VisionStep::Known(supports) => cache@.contains_key(model@) && cache@[model@]
                == supports,
            VisionStep::Ask(url) => !cache@.contains_key(model@) && url@ == ollama_url@
                + "/api/show"@,
        },
{
    match cache.get(model) {
        Some(supports) => VisionStep::Known(supports),
        None => VisionStep::Ask(show_url(ollama_url)),
    }
}

/// Learns from the capabilities in a model's description whether it takes images. They
/// are missing where the description does not list them or could not be had.
pub fn learn_vision(
    cache: &mut VisionCache,
    model: &str,
    capabilities: &Option<Vec<String>>,
) -> (supports: bool)
    ensures
        supports == takes_images(option_views(*capabilities)),
        final(cache)@ == old(cache)@.insert(model@, supports),
{
    let supports: bool = lists_vision(capabilities);
    cache.insert(model, supports);
    supports
}

} // verus!
