//! The Telegram gateway: whose messages are taken, what the daemon is asked, and what is sent back.
use crate::daemon::request;
use crate::daemon::request::{ClientRequest, RequestView};
use crate::error::{AppError, AppResult};
use crate::gateway;
use crate::gateway::{chunks, gateway_token, trimmed_base, EnvVar};
use crate::json;
use crate::json::{Json, JsonView, ObjectBuilder};
use crate::shape;
use crate::shape::{FieldShape, Shape, ShapeView};
use crate::table;
use crate::text;
use vstd::prelude::*;

verus! {

pub const TELEGRAM_API_BASE: &'static str = "https://api.telegram.org";

/// How long a question for updates may wait for one, in seconds.
pub const TELEGRAM_LONG_POLL_SECONDS: u64 = 30;

/// How many characters a message may have.
pub const TELEGRAM_MESSAGE_LIMIT: usize = 4096;

/// What the gateway needs a daemon to do.
pub open spec fn required_names() -> Seq<Seq<char>> {
    seq!["hello"@, "message.append"@, "events.stream"@, "sessions.list"@, "transcript.read"@]
}

/// What the gateway needs a daemon to do.
pub fn required_capabilities() -> (r: Vec<&'static str>)
    ensures
        gateway::name_views(r@) == required_names(),
{
    let r = vec!["hello", "message.append", "events.stream", "sessions.list", "transcript.read"];
    assert(gateway::name_views(r@) =~= required_names());
    r
}

/// How the gateway is started.
#[derive(Clone, Debug, PartialEq, Eq)]
pub struct TelegramGatewayOptions {
    pub workspace_root: String,
    pub socket_path: Option<String>,
    pub config_path: Option<String>,
}

/// What the configuration says of the gateway.
#[derive(Debug, PartialEq, Eq)]
pub struct TelegramGatewayConfig {
    pub api_key_env: String,
    pub owner_user_ids: Vec<i64>,
}

impl TelegramGatewayConfig {
    /// The token that the gateway runs with.
    pub fn token(&self, provider_env: &str, env: &Vec<EnvVar>) -> (r: AppResult<String>)
        ensures
            gateway::token_is(
                r,
                gateway::token_in(provider_env@, self.api_key_env@, gateway::env_rows(env@)),
            ),
    {
        gateway_token(provider_env, self.api_key_env.as_str(), env)
    }
}

/// A chat, or a topic in one.
#[derive(Clone, Copy, Debug, PartialEq, Eq, Structural)]
pub struct Conversation {
    pub chat_id: i64,
    pub thread_id: Option<i64>,
}

/// A message.
#[derive(Debug, PartialEq, Eq)]
pub struct TelegramMessage {
    pub sender: Option<i64>,
    pub chat_id: i64,
    pub thread_id: Option<i64>,
    pub text: Option<String>,
}

/// What a message stands for.
pub struct MessageView {
    pub sender: Option<i64>,
    pub chat_id: i64,
    pub thread_id: Option<i64>,
    pub text: Option<Seq<char>>,
}

impl TelegramMessage {
    /// The message that `self` stands for.
    pub open spec fn view(&self) -> MessageView {
        MessageView {
            sender: self.sender,
            chat_id: self.chat_id,
            thread_id: self.thread_id,
            text: text::opt_view(self.text),
        }
    }
}

/// An update.
#[derive(Debug, PartialEq, Eq)]
pub struct TelegramUpdate {
    pub update_id: i64,
    pub message: Option<TelegramMessage>,
}

/// What an update stands for.
pub struct UpdateView {
    pub update_id: i64,
    pub message: Option<MessageView>,
}

impl TelegramUpdate {
    /// The update that `self` stands for.
    pub open spec fn view(&self) -> UpdateView {
        UpdateView {
            update_id: self.update_id,
            message: match self.message {
                Some(message) => Some(message@),
                None => None,
            },
        }
    }
}

/// What updates stand for.
pub open spec fn update_views(updates: Seq<TelegramUpdate>) -> Seq<UpdateView> {
    Seq::new(updates.len(), |i: int| updates[i]@)
}

/// Whether a member is missing, or null.
pub open spec fn absent(value: JsonView, name: Seq<char>) -> bool {
    json::member_of(value, name) is None || json::member_of(value, name) == Some(JsonView::Null)
}

/// The number in a member that may be absent.
pub open spec fn optional_number(value: JsonView, name: Seq<char>) -> Option<Option<i64>> {
    if absent(value, name) {
        Some(None)
    } else {
        match json::i64_in(json::member_of(value, name)) {
            Some(n) => Some(Some(n)),
            None => None,
        }
    }
}

/// The text in a member that may be absent.
pub open spec fn optional_text(value: JsonView, name: Seq<char>) -> Option<Option<Seq<char>>> {
    if absent(value, name) {
        Some(None)
    } else {
        match json::text_in(json::member_of(value, name)) {
            Some(text) => Some(Some(text)),
            None => None,
        }
    }
}

/// The fields of an answer, in the order in which a list tells them.
pub open spec fn answer_names() -> Seq<Seq<char>> {
    text::str_views(seq!["ok", "result"])
}

/// The fields of an update, in the order in which a list tells them.
pub open spec fn update_names() -> Seq<Seq<char>> {
    text::str_views(seq!["update_id", "message"])
}

/// The fields of a message, in the order in which a list tells them.
pub open spec fn message_names() -> Seq<Seq<char>> {
    text::str_views(seq!["from", "chat", "message_thread_id", "text"])
}

/// The field of a user or a chat.
pub open spec fn id_names() -> Seq<Seq<char>> {
    text::str_views(seq!["id"])
}

/// What is taken of a user or a chat.
pub open spec fn id_shape() -> ShapeView {
    ShapeView::Record(seq![("id"@, ShapeView::Any)])
}

/// What is taken of a message.
pub open spec fn message_shape() -> ShapeView {
    ShapeView::Record(
        seq![
            ("from"@, id_shape()),
            ("chat"@, id_shape()),
            ("message_thread_id"@, ShapeView::Any),
            ("text"@, ShapeView::Any),
        ],
    )
}

/// What is taken of an update.
pub open spec fn update_shape() -> ShapeView {
    ShapeView::Record(seq![("update_id"@, ShapeView::Any), ("message"@, message_shape())])
}

/// What is taken of an answer with updates.
pub open spec fn updates_shape() -> ShapeView {
    ShapeView::Record(
        seq![("ok"@, ShapeView::Any), ("result"@, ShapeView::List(Box::new(update_shape())))],
    )
}

/// What is taken of an answer to a message that was sent.
pub open spec fn sent_shape() -> ShapeView {
    ShapeView::Record(seq![("ok"@, ShapeView::Any), ("result"@, ShapeView::Any)])
}

fn shape_of_id() -> (r: Shape)
    ensures
        r@ == id_shape(),
{
    let fields = vec![shape::whole("id")];
    assert(shape::field_views(fields@) =~= id_shape()->Record_0);
    shape::record(fields)
}

fn shape_of_updates() -> (r: Shape)
    ensures
        r@ == updates_shape(),
{
    let message = vec![
        FieldShape { name: "from", shape: shape_of_id() },
        FieldShape { name: "chat", shape: shape_of_id() },
        shape::whole("message_thread_id"),
        shape::whole("text"),
    ];
    assert(shape::field_views(message@) =~= message_shape()->Record_0);
    let update = vec![
        shape::whole("update_id"),
        FieldShape { name: "message", shape: shape::record(message) },
    ];
    assert(shape::field_views(update@) =~= update_shape()->Record_0);
    let answer = vec![
        shape::whole("ok"),
        FieldShape { name: "result", shape: Shape::List(Box::new(shape::record(update))) },
    ];
    assert(shape::field_views(answer@) =~= updates_shape()->Record_0);
    shape::record(answer)
}

fn shape_of_sent() -> (r: Shape)
    ensures
        r@ == sent_shape(),
{
    let fields = vec![shape::whole("ok"), shape::whole("result")];
    assert(shape::field_views(fields@) =~= sent_shape()->Record_0);
    shape::record(fields)
}

/// The value of an answer, with its fields named; nothing where it is not JSON, or has a field twice.
pub open spec fn answer_value(shape: ShapeView, body: Seq<char>) -> Option<JsonView> {
    match shape::shaped(shape, body) {
        Ok(value) => Some(json::listed(value, answer_names())),
        Err(_) => None,
    }
}

fn read_answer(shape: Shape, body: &str) -> (r: Option<Json>)
    ensures
        (match r {
            Some(value) => Some(value@),
            None => None,
        }) == answer_value(shape@, body@),
{
    let names = vec!["ok", "result"];
    assert(text::str_views(names@) =~= answer_names());
    match shape.read(body) {
        Ok(value) => Some(value.listed(&names)),
        Err(_) => None,
    }
}

/// The `id` of what a member is.
pub open spec fn id_in(value: JsonView, name: Seq<char>) -> Option<i64> {
    match json::member_of(value, name) {
        Some(inner) => json::i64_in(json::member_of(json::listed(inner, id_names()), "id"@)),
        None => None,
    }
}

/// The `id` of what a member is, where the member may be absent.
pub open spec fn optional_id(value: JsonView, name: Seq<char>) -> Option<Option<i64>> {
    if absent(value, name) {
        Some(None)
    } else {
        match id_in(value, name) {
            Some(id) => Some(Some(id)),
            None => None,
        }
    }
}

/// The message that a value is.
pub open spec fn message_in(value: JsonView) -> Option<MessageView> {
    let value = json::listed(value, message_names());
    match (
        optional_id(value, "from"@),
        id_in(value, "chat"@),
        optional_number(value, "message_thread_id"@),
        optional_text(value, "text"@),
    ) {
        (Some(sender), Some(chat_id), Some(thread_id), Some(text)) => Some(
            MessageView { sender, chat_id, thread_id, text },
        ),
        _ => None,
    }
}

/// The update that a value is.
pub open spec fn update_in(value: JsonView) -> Option<UpdateView> {
    let value = json::listed(value, update_names());
    match json::i64_in(json::member_of(value, "update_id"@)) {
        None => None,
        Some(update_id) => if absent(value, "message"@) {
            Some(UpdateView { update_id, message: None })
        } else {
            match message_in(json::member_of(value, "message"@)->Some_0) {
                Some(message) => Some(UpdateView { update_id, message: Some(message) }),
                None => None,
            }
        },
    }
}

/// The updates that values are.
pub open spec fn updates_in(values: Seq<JsonView>) -> Option<Seq<UpdateView>>
    decreases values.len(),
{
    if values.len() == 0 {
        Some(Seq::empty())
    } else {
        match (updates_in(values.drop_last()), update_in(values.last())) {
            (Some(rest), Some(last)) => Some(rest.push(last)),
            _ => None,
        }
    }
}

fn is_absent(value: &Json, name: &str) -> (r: bool)
    ensures
        r == absent(value@, name@),
{
    match value.get(name) {
        None => true,
        Some(Json::Null) => true,
        Some(_) => false,
    }
}

fn read_id(value: &Json, name: &str) -> (r: Option<i64>)
    ensures
        r == id_in(value@, name@),
{
    let names = vec!["id"];
    assert(text::str_views(names@) =~= id_names());
    match value.get(name) {
        Some(inner) => inner.listed(&names).signed_member("id"),
        None => None,
    }
}

fn read_message(value: &Json) -> (r: Option<TelegramMessage>)
    ensures
        (match r {
            Some(message) => Some(message@),
            None => None,
        }) == message_in(value@),
{
    let names = vec!["from", "chat", "message_thread_id", "text"];
    assert(text::str_views(names@) =~= message_names());
    let value = &value.listed(&names);
    let sender = if is_absent(value, "from") {
        None
    } else {
        match read_id(value, "from") {
            Some(id) => Some(id),
            None => {
                return None;
            },
        }
    };
    let chat_id = match read_id(value, "chat") {
        Some(id) => id,
        None => {
            return None;
        },
    };
    let thread_id = if is_absent(value, "message_thread_id") {
        None
    } else {
        match value.signed_member("message_thread_id") {
            Some(id) => Some(id),
            None => {
                return None;
            },
        }
    };
    let text = if is_absent(value, "text") {
        None
    } else {
        match value.text_member("text") {
            Some(text) => Some(text),
            None => {
                return None;
            },
        }
    };
    Some(TelegramMessage { sender, chat_id, thread_id, text })
}

fn read_update(value: &Json) -> (r: Option<TelegramUpdate>)
    ensures
        (match r {
            Some(update) => Some(update@),
            None => None,
        }) == update_in(value@),
{
    let names = vec!["update_id", "message"];
    assert(text::str_views(names@) =~= update_names());
    let value = &value.listed(&names);
    let update_id = match value.signed_member("update_id") {
        Some(id) => id,
        None => {
            return None;
        },
    };
    if is_absent(value, "message") {
        return Some(TelegramUpdate { update_id, message: None });
    }
    match value.get("message") {
        Some(message) => match read_message(message) {
            Some(message) => Some(TelegramUpdate { update_id, message: Some(message) }),
            None => None,
        },
        None => None,
    }
}

proof fn lemma_one_bad_update(values: Seq<JsonView>, k: int)
    requires
        0 < k <= values.len(),
        updates_in(values.take(k)) is None,
    ensures
        updates_in(values) is None,
    decreases values.len(),
{
    if k == values.len() {
        assert(values.take(k) =~= values);
    } else {
        assert(values.drop_last().take(k) =~= values.take(k));
        lemma_one_bad_update(values.drop_last(), k);
    }
}

fn read_update_list(values: &Vec<Json>) -> (r: Option<Vec<TelegramUpdate>>)
    ensures
        (match r {
            Some(updates) => Some(update_views(updates@)),
            None => None,
        }) == updates_in(json::json_views(values@)),
{
    let ghost all = json::json_views(values@);
    let mut updates: Vec<TelegramUpdate> = Vec::new();
    assert(all.take(0) =~= Seq::empty());
    assert(update_views(updates@) =~= Seq::empty());
    let mut i: usize = 0;
    while i < values.len()
        invariant
            0 <= i <= values@.len(),
            all == json::json_views(values@),
            updates_in(all.take(i as int)) == Some(update_views(updates@)),
        decreases values@.len() - i,
    {
        assert(all.take(i + 1).drop_last() =~= all.take(i as int));
        assert(all.take(i + 1).last() == values@[i as int]@);
        match read_update(&values[i]) {
            Some(update) => {
                let ghost before = update_views(updates@);
                updates.push(update);
                assert(update_views(updates@) =~= before.push(update@));
            },
            None => {
                proof {
                    lemma_one_bad_update(all, i + 1);
                }
                return None;
            },
        }
        i += 1;
    }
    assert(all.take(all.len() as int) =~= all);
    Some(updates)
}

/// The updates in an answer, or what is wrong with it.
pub open spec fn updates_answered(body: Seq<char>) -> Result<Seq<UpdateView>, Seq<char>> {
    match answer_value(updates_shape(), body) {
        None => Err("telegram getUpdates returned invalid JSON"@),
        Some(value) => {
            let ok = json::flag_in(json::member_of(value, "ok"@));
            let listed = json::member_of(value, "result"@);
            if ok is None || (!absent(value, "result"@) && !(listed->Some_0 is Array)) || (!absent(
                value,
                "result"@,
            ) && updates_in(listed->Some_0->Array_0) is None) {
                Err("telegram getUpdates returned invalid JSON"@)
            } else if ok == Some(false) {
                Err("telegram getUpdates was rejected"@)
            } else if absent(value, "result"@) {
                Err("telegram getUpdates response missing result"@)
            } else {
                Ok(updates_in(listed->Some_0->Array_0)->Some_0)
            }
        },
    }
}

/// The updates in an answer.
pub fn read_updates(body: &str) -> (r: AppResult<Vec<TelegramUpdate>>)
    ensures
        match updates_answered(body@) {
            Ok(updates) => r matches Ok(given) && update_views(given@) == updates,
            Err(message) => r matches Err(AppError::Provider(detail)) && detail@ == message,
        },
{
    let invalid = "telegram getUpdates returned invalid JSON";
    let value = match read_answer(shape_of_updates(), body) {
        Some(value) => value,
        None => {
            return Err(AppError::Provider(invalid.to_owned()));
        },
    };
    let ok = match value.flag_member("ok") {
        Some(ok) => ok,
        None => {
            return Err(AppError::Provider(invalid.to_owned()));
        },
    };
    let missing = is_absent(&value, "result");
    let updates = if missing {
        Vec::new()
    } else {
        match value.get("result") {
            Some(Json::Array(values)) => {
                proof {
                    json::lemma_array_view(*values);
                }
                match read_update_list(values) {
                    Some(updates) => updates,
                    None => {
                        return Err(AppError::Provider(invalid.to_owned()));
                    },
                }
            },
            _ => {
                return Err(AppError::Provider(invalid.to_owned()));
            },
        }
    };
    if !ok {
        return Err(AppError::Provider("telegram getUpdates was rejected".to_owned()));
    }
    if missing {
        return Err(
            AppError::Provider("telegram getUpdates response missing result".to_owned()),
        );
    }
    Ok(updates)
}

/// What is wrong with an answer to a message that was sent.
pub open spec fn send_complaint(body: Seq<char>) -> Option<Seq<char>> {
    match answer_value(sent_shape(), body) {
        None => Some("telegram sendMessage returned invalid JSON"@),
        Some(value) => match json::flag_in(json::member_of(value, "ok"@)) {
            None => Some("telegram sendMessage returned invalid JSON"@),
            Some(false) => Some("telegram sendMessage was rejected"@),
            Some(true) => if absent(value, "result"@) {
                Some("telegram sendMessage response missing result"@)
            } else {
                None
            },
        },
    }
}

/// Checks the answer to a message that was sent.
pub fn check_sent(body: &str) -> (r: AppResult<()>)
    ensures
        match send_complaint(body@) {
            None => r is Ok,
            Some(message) => r matches Err(AppError::Provider(detail)) && detail@ == message,
        },
{
    let value = match read_answer(shape_of_sent(), body) {
        Some(value) => value,
        None => {
            return Err(
                AppError::Provider("telegram sendMessage returned invalid JSON".to_owned()),
            );
        },
    };
    match value.flag_member("ok") {
        None => Err(AppError::Provider("telegram sendMessage returned invalid JSON".to_owned())),
        Some(false) => Err(AppError::Provider("telegram sendMessage was rejected".to_owned())),
        Some(true) => if is_absent(&value, "result") {
            Err(AppError::Provider("telegram sendMessage response missing result".to_owned()))
        } else {
            Ok(())
        },
    }
}

/// Cuts an answer into messages.
pub fn telegram_chunks(text: &str) -> (r: Vec<String>)
    ensures
        text::views(r@) == gateway::chunks_of(text@, TELEGRAM_MESSAGE_LIMIT as nat),
{
    chunks(text, TELEGRAM_MESSAGE_LIMIT)
}

/// The address of a method of a bot.
pub fn endpoint(base_url: &str, token: &str, method: &str) -> (r: String)
    ensures
        r@ == gateway::without_slashes(base_url@) + "/bot"@ + token@ + "/"@ + method@,
{
    let mut r = text::text4(trimmed_base(base_url).as_str(), "/bot", token, "/");
    r.append(method);
    r
}

/// What pairs stand for.
pub open spec fn pair_views(pairs: Seq<(String, String)>) -> Seq<(Seq<char>, Seq<char>)> {
    Seq::new(pairs.len(), |i: int| (pairs[i].0@, pairs[i].1@))
}

/// What a question for updates says.
pub open spec fn updates_query_view(long_poll_seconds: u64, offset: Option<i64>) -> Seq<
    (Seq<char>, Seq<char>),
> {
    let always = seq![
        ("timeout"@, text::decimal(long_poll_seconds as nat)),
        ("allowed_updates"@, "[\"message\"]"@),
    ];
    match offset {
        Some(offset) => always.push(("offset"@, text::decimal_int(offset as int))),
        None => always,
    }
}

/// What a question for updates says.
pub fn updates_query(long_poll_seconds: u64, offset: Option<i64>) -> (r: Vec<(String, String)>)
    ensures
        pair_views(r@) == updates_query_view(long_poll_seconds, offset),
{
    let mut r = vec![
        ("timeout".to_owned(), text::decimal_u64(long_poll_seconds)),
        ("allowed_updates".to_owned(), "[\"message\"]".to_owned()),
    ];
    if let Some(offset) = offset {
        r.push(("offset".to_owned(), text::decimal_i64(offset)));
    }
    assert(pair_views(r@) =~= updates_query_view(long_poll_seconds, offset));
    r
}

/// A message as it is sent.
pub open spec fn send_json(conversation: Conversation, text: Seq<char>) -> JsonView {
    let chat = json::no_members().push(
        ("chat_id"@, JsonView::Number(text::decimal_int(conversation.chat_id as int))),
    );
    let thread = match conversation.thread_id {
        Some(id) => chat.push(
            ("message_thread_id"@, JsonView::Number(text::decimal_int(id as int))),
        ),
        None => chat,
    };
    JsonView::Object(thread.push(("text"@, JsonView::Text(text))))
}

/// A message as it is sent.
pub fn send_body(conversation: Conversation, text: &str) -> (r: Json)
    ensures
        r@ == send_json(conversation, text@),
{
    let mut object = ObjectBuilder::new().with("chat_id", Json::signed(conversation.chat_id));
    if let Some(id) = conversation.thread_id {
        object = object.with("message_thread_id", Json::signed(id));
    }
    object.text("text", text).build()
}

/// The session of a conversation.
#[derive(Debug, PartialEq, Eq)]
pub struct ConversationSession {
    pub conversation: Conversation,
    pub session_id: String,
}

/// The gateway: whose messages it takes, the sessions of their conversations, and the update that it
/// asks for next.
#[derive(Debug, PartialEq, Eq)]
pub struct TelegramGateway {
    pub config_path: Option<String>,
    pub owner_user_ids: Vec<i64>,
    pub sessions: Vec<ConversationSession>,
    pub next_update_id: Option<i64>,
}

/// What a gateway stands for.
pub struct GatewayView {
    pub config_path: Option<Seq<char>>,
    pub owners: Seq<i64>,
    pub sessions: Seq<(Conversation, Seq<char>)>,
    pub next_update_id: Option<i64>,
}

/// What sessions stand for.
pub open spec fn session_rows(sessions: Seq<ConversationSession>) -> Seq<
    (Conversation, Seq<char>),
> {
    Seq::new(sessions.len(), |i: int| (sessions[i].conversation, sessions[i].session_id@))
}

/// The update that is asked for after one.
pub open spec fn next_after(next: Option<i64>, update_id: i64) -> i64 {
    let behind = if update_id == i64::MAX {
        i64::MAX
    } else {
        (update_id + 1) as i64
    };
    let known = match next {
        Some(next) => next,
        None => 0,
    };
    if known > behind {
        known
    } else {
        behind
    }
}

/// What a gateway takes of an update: a text of an owner that is not blank.
pub open spec fn taken(owners: Seq<i64>, update: UpdateView) -> Option<(Conversation, Seq<char>)> {
    match update.message {
        None => None,
        Some(message) => match (message.sender, message.text) {
            (Some(sender), Some(text)) => if owners.contains(sender) && !text::is_blank(text) {
                Some(
                    (
                        Conversation { chat_id: message.chat_id, thread_id: message.thread_id },
                        text,
                    ),
                )
            } else {
                None
            },
            _ => None,
        },
    }
}

/// What the daemon is asked for a text in a conversation: to go on with its session.
pub open spec fn order_of(
    gateway: GatewayView,
    conversation: Conversation,
    text: Seq<char>,
) -> RequestView {
    request::message_append_view(
        text,
        table::lookup(gateway.sessions, conversation),
        gateway.config_path,
        false,
    )
}

impl TelegramGateway {
    /// The gateway that `self` stands for.
    pub open spec fn view(&self) -> GatewayView {
        GatewayView {
            config_path: text::opt_view(self.config_path),
            owners: self.owner_user_ids@,
            sessions: session_rows(self.sessions@),
            next_update_id: self.next_update_id,
        }
    }

    /// A gateway that has taken nothing yet.
    pub fn new(config_path: Option<String>, config: TelegramGatewayConfig) -> (r: TelegramGateway)
        ensures
            r@ == (GatewayView {
                config_path: text::opt_view(config_path),
                owners: config.owner_user_ids@,
                sessions: Seq::empty(),
                next_update_id: None,
            }),
    {
        let r = TelegramGateway {
            config_path,
            owner_user_ids: config.owner_user_ids,
            sessions: Vec::new(),
            next_update_id: None,
        };
        assert(session_rows(r.sessions@) =~= Seq::empty());
        r
    }

    fn owns(&self, user_id: i64) -> (r: bool)
        ensures
            r == self@.owners.contains(user_id),
    {
        let mut i: usize = 0;
        while i < self.owner_user_ids.len()
            invariant
                0 <= i <= self.owner_user_ids@.len(),
                forall|j: int| 0 <= j < i ==> self.owner_user_ids@[j] != user_id,
            decreases self.owner_user_ids@.len() - i,
        {
            if self.owner_user_ids[i] == user_id {
                return true;
            }
            i += 1;
        }
        false
    }

    /// Takes an update: notes that it came, and gives what is to be answered.
    pub fn take_update(&mut self, update: TelegramUpdate) -> (r: Option<(Conversation, String)>)
        ensures
            final(self)@ == (GatewayView {
                next_update_id: Some(next_after(old(self)@.next_update_id, update.update_id)),
                ..old(self)@
            }),
            (match r {
                Some((conversation, text)) => Some((conversation, text@)),
                None => None,
            }) == taken(old(self)@.owners, update@),
    {
        let behind = if update.update_id == i64::MAX {
            i64::MAX
        } else {
            update.update_id + 1
        };
        let known = match self.next_update_id {
            Some(next) => next,
            None => 0,
        };
        self.next_update_id =
        Some(
            if known > behind {
                known
            } else {
                behind
            },
        );
        match update.message {
            None => None,
            Some(message) => match (message.sender, message.text) {
                (Some(sender), Some(text)) => if self.owns(sender) && !text::blank(text.as_str()) {
                    let conversation = Conversation {
                        chat_id: message.chat_id,
                        thread_id: message.thread_id,
                    };
                    Some((conversation, text))
                } else {
                    None
                },
                _ => None,
            },
        }
    }

    fn session_index(&self, conversation: Conversation) -> (r: usize)
        ensures
            r == table::position(self@.sessions, conversation),
            r <= self.sessions@.len(),
    {
        let ghost rows = session_rows(self.sessions@);
        let mut i: usize = 0;
        while i < self.sessions.len()
            invariant
                0 <= i <= self.sessions@.len(),
                rows == session_rows(self.sessions@),
                forall|j: int| 0 <= j < i ==> (#[trigger] rows[j]).0 != conversation,
            decreases self.sessions@.len() - i,
        {
            if self.sessions[i].conversation == conversation {
                proof {
                    table::lemma_position(rows, conversation, i as int);
                }
                return i;
            }
            assert(rows[i as int].0 != conversation);
            i += 1;
        }
        proof {
            table::lemma_position(rows, conversation, rows.len() as int);
        }
        i
    }

    /// What the daemon is asked for a text in a conversation.
    pub fn order(&self, conversation: Conversation, text: String) -> (r: ClientRequest)
        ensures
            r@ == order_of(self@, conversation, text@),
    {
        let index = self.session_index(conversation);
        let session_id = if index < self.sessions.len() {
            Some(self.sessions[index].session_id.clone())
        } else {
            None
        };
        ClientRequest::message_append(
            text,
            session_id,
            text::copy_option(&self.config_path),
            false,
        )
    }

    /// Notes the session of a conversation.
    pub fn note_session(&mut self, conversation: Conversation, session_id: &str)
        ensures
            final(self)@ == (GatewayView {
                sessions: table::with_row(old(self)@.sessions, conversation, session_id@),
                ..old(self)@
            }),
    {
        let ghost rows = session_rows(self.sessions@);
        let index = self.session_index(conversation);
        let row = ConversationSession { conversation, session_id: session_id.to_owned() };
        if index < self.sessions.len() {
            self.sessions.set(index, row);
        } else {
            self.sessions.push(row);
        }
        assert(session_rows(self.sessions@) =~= table::with_row(rows, conversation, session_id@));
    }
}

/// Only an owner's text is ever taken.
pub proof fn law_only_owners_are_answered(owners: Seq<i64>, update: UpdateView)
    requires
        !(update.message matches Some(message) && message.sender matches Some(sender)
            && owners.contains(sender)),
    ensures
        taken(owners, update) is None,
{
}

/// An update is not asked for twice, and what was asked for before is not asked for again.
pub proof fn law_updates_are_taken_once(next: Option<i64>, update_id: i64)
    ensures
        update_id < i64::MAX ==> update_id < next_after(next, update_id),
        next matches Some(known) ==> known <= next_after(next, update_id),
{
}

/// A conversation goes on with the session that was noted for it, and the others go on with theirs.
pub proof fn law_conversations_continue(
    gateway: GatewayView,
    conversation: Conversation,
    session_id: Seq<char>,
    other: Conversation,
    text: Seq<char>,
)
    ensures
        ({
            let after = GatewayView {
                sessions: table::with_row(gateway.sessions, conversation, session_id),
                ..gateway
            };
            &&& order_of(after, conversation, text) == request::message_append_view(
                text,
                Some(session_id),
                gateway.config_path,
                false,
            )
            &&& other != conversation ==> order_of(after, other, text) == order_of(
                gateway,
                other,
                text,
            )
        }),
{
    table::law_reads_what_was_written(gateway.sessions, conversation, session_id, conversation);
    table::law_reads_what_was_written(gateway.sessions, conversation, session_id, other);
}

/// A message is taken exactly where an owner wrote it and it is not blank; it is answered in the chat and
/// the thread that it came from, and asked as it was written.
pub proof fn law_owners_are_taken_at_their_word(
    owners: Seq<i64>,
    update: UpdateView,
    message: MessageView,
)
    requires
        update.message == Some(message),
    ensures
        taken(owners, update) is Some <==> (message.sender matches Some(sender) && owners.contains(
            sender,
        )) && (message.text matches Some(said) && !text::is_blank(said)),
        taken(owners, update) matches Some((conversation, said)) ==> conversation.chat_id
            == message.chat_id && conversation.thread_id == message.thread_id && message.text
            == Some(said),
{
}

/// The next update to ask for lies directly behind the latest that was seen.
pub proof fn law_the_next_update_is_asked_for(next: Option<i64>, update_id: i64)
    requires
        update_id < i64::MAX,
        update_id >= 0,
    ensures
        next is None ==> next_after(next, update_id) == update_id + 1,
        next matches Some(known) ==> {
            &&& known <= update_id ==> next_after(next, update_id) == update_id + 1
            &&& known > update_id ==> next_after(next, update_id) == known
        },
{
}

/// Updates are asked for with the time to wait, only those that are messages, and from the next on where
/// that is known.
pub proof fn law_updates_are_asked_for(seconds: u64, offset: i64)
    ensures
        updates_query_view(seconds, None) == seq![
            ("timeout"@, text::decimal(seconds as nat)),
            ("allowed_updates"@, "[\"message\"]"@),
        ],
        updates_query_view(seconds, Some(offset)) == updates_query_view(seconds, None).push(
            ("offset"@, text::decimal_int(offset as int)),
        ),
{
}

/// An answer is sent to its chat, and to its thread where it has one, with its text.
pub proof fn law_answers_go_to_their_conversation(conversation: Conversation, said: Seq<char>)
    ensures
        send_json(conversation, said) matches JsonView::Object(m) && m[0] == (
            "chat_id"@,
            JsonView::Number(text::decimal_int(conversation.chat_id as int)),
        ) && m.last() == ("text"@, JsonView::Text(said)) && (conversation.thread_id is None
            ==> m.len() == 2) && (conversation.thread_id is Some ==> m.len() == 3 && m[1] == (
            "message_thread_id"@,
            JsonView::Number(text::decimal_int(conversation.thread_id->Some_0 as int)),
        )),
{
    let m = send_json(conversation, said)->Object_0;
    assert(m[0].0 == "chat_id"@);
    assert(m.last() == ("text"@, JsonView::Text(said)));
    if conversation.thread_id is Some {
        assert(m[1].0 == "message_thread_id"@);
    }
}

/// A message is read from its members: who wrote it and in which chat, its thread and its text where it
/// has them. One whose chat is not known is none.
pub proof fn law_messages_are_read_by_name(value: JsonView, chat: JsonView)
    requires
        value is Object,
        json::member_of(value, "chat"@) == Some(chat),
        chat is Object,
    ensures
        message_in(value) matches Some(message) ==> {
            &&& json::i64_in(json::member_of(chat, "id"@)) == Some(message.chat_id)
            &&& json::text_in(json::member_of(value, "text"@)) == message.text
            &&& json::i64_in(json::member_of(value, "message_thread_id"@)) == message.thread_id
            &&& json::member_of(value, "from"@) is None ==> message.sender is None
            &&& json::member_of(value, "from"@) matches Some(from) ==> (from is Object
                ==> json::i64_in(json::member_of(from, "id"@)) == message.sender)
        },
        json::i64_in(json::member_of(chat, "id"@)) is None ==> message_in(value) is None,
{
}

/// Updates are read one by one, in their order; one that cannot be read makes the answer unreadable.
pub proof fn law_updates_are_read_in_order(values: Seq<JsonView>, value: JsonView)
    ensures
        updates_in(Seq::empty()) == Some(Seq::<UpdateView>::empty()),
        updates_in(values) matches Some(before) ==> {
            &&& update_in(value) matches Some(update) ==> updates_in(values.push(value)) == Some(
                before.push(update),
            )
            &&& update_in(value) is None ==> updates_in(values.push(value)) is None
        },
        updates_in(values) is None ==> updates_in(values.push(value)) is None,
{
    assert(values.push(value).drop_last() =~= values);
}

/// An update is told by its number, and by its message where it has one.
pub proof fn law_updates_are_read_by_name(value: JsonView)
    requires
        value is Object,
    ensures
        update_in(value) matches Some(update) ==> {
            &&& json::i64_in(json::member_of(value, "update_id"@)) == Some(update.update_id)
            &&& json::member_of(value, "message"@) is None ==> update.message is None
            &&& json::member_of(value, "message"@) matches Some(message) ==> (message
                != JsonView::Null ==> update.message == message_in(message))
        },
        json::i64_in(json::member_of(value, "update_id"@)) is None ==> update_in(value) is None,
{
}

/// An answer of the service counts only where it says that it is one: updates and a sent message alike
/// are refused where it says no, or nothing.
pub proof fn law_refusals_are_not_taken(body: Seq<char>, updates: JsonView, sent: JsonView)
    requires
        answer_value(updates_shape(), body) == Some(updates),
        answer_value(sent_shape(), body) == Some(sent),
    ensures
        updates_answered(body) is Ok ==> json::flag_in(json::member_of(updates, "ok"@)) == Some(true)
            && (json::member_of(updates, "result"@) matches Some(JsonView::Array(values))
            && updates_in(values) == Some(updates_answered(body)->Ok_0)),
        send_complaint(body) is None <==> json::flag_in(json::member_of(sent, "ok"@)) == Some(true)
            && !absent(sent, "result"@),
{
}

} // verus!
